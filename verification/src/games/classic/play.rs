use vstd::prelude::*;
use std::collections::BTreeSet;
use crate::games::classic::gun_events::{GunEvents, GunOwner, Guns};
use crate::room::{
    first_intent, first_one, powers_of, tagged, told_its_powers, told_nothing, without_powers,
    NightAct, RawSpell, Room, Spells,
};
use crate::scenario::{
    add_message, delivered, no_messages, no_notes, with_note, Error, HolyMessage, Messages, News,
    Power, ShootingResult,
};
use crate::waiting::PlayerId;

verus! {

broadcast use vstd::std_specs::btree::group_btree_axioms;

/// A weapon as it is handed to a participant for the coming day.
#[derive(Clone, Copy, Debug, PartialEq, Eq, Structural)]
pub enum DayEvent {
    /// A real weapon, with the participant who hands it out.
    RealGun(PlayerId),
    FakeGun,
}

/// What the kill chain of a night came to, before any healing.
#[derive(Clone, Copy, Debug, PartialEq, Eq, Structural)]
pub enum KillingStatus {
    /// The boss kills this participant.
    BossKilled(PlayerId),
    /// The wicked one has acted, and kills the second participant if any.
    WickedActed(PlayerId, Option<PlayerId>),
    /// The commando has shot back, and kills the second participant if any.
    CommandoActed(PlayerId, Option<PlayerId>),
}

/// The number of weapons that one night hands out at most.
pub const GUN_LIMIT: usize = 2;

/// The number of seats from which on two participants are healed.
pub const WIDE_HEAL_FROM: usize = 8;

/// The text with which a night without a kill is reported.
pub open spec fn no_kill_command() -> Seq<char> {
    "No Kill command"@
}

/// The intents that are left once the paralyzed participant is dealt with:
/// where the first Paralyze intent names one participant, and the first
/// Guard intent does not name the same one, every power that this
/// participant holds loses its intents.
pub open spec fn after_paralysis(
    seats: Map<PlayerId, Set<Power>>,
    intents: Map<Power, Seq<RawSpell>>,
) -> Map<Power, Seq<RawSpell>> {
    match first_one(intents, Power::Paralyze) {
        Some((_, _, paralyzed)) => match first_one(intents, Power::Guard) {
            Some((_, _, guarded)) if guarded == paralyzed => intents,
            _ => intents.remove_keys(powers_of(seats, paralyzed)),
        },
        None => intents,
    }
}

/// The participants that the first intent for `power` names, where it names
/// one or two.
pub open spec fn player_ids(intents: Map<Power, Seq<RawSpell>>, power: Power) -> Seq<PlayerId> {
    match first_intent(intents, power) {
        Some((_, _, NightAct::One(a))) => seq![a],
        Some((_, _, NightAct::Two(a, b))) => seq![a, b],
        _ => Seq::empty(),
    }
}

/// Those whom the healer protects: the first two that the Heal intent names
/// in a room of eight or more, else the first alone.
pub open spec fn healed(intents: Map<Power, Seq<RawSpell>>, total: nat) -> Set<PlayerId> {
    let ids = player_ids(intents, Power::Heal);
    if ids.len() == 0 {
        Set::empty()
    } else if ids.len() == 1 || total < WIDE_HEAL_FROM {
        set![ids[0]]
    } else {
        set![ids[0], ids[1]]
    }
}

/// The commando's answer to the boss: it misses a target that dodges, kills
/// a target of the mafia, and does not act on any other.
pub open spec fn hit_mafia(seats: Map<PlayerId, Set<Power>>, commando: PlayerId, target: PlayerId) -> Option<
    KillingStatus,
> {
    if powers_of(seats, target).contains(Power::DodgeCommando) {
        Some(KillingStatus::CommandoActed(commando, None))
    } else if powers_of(seats, target).contains(Power::Mafia) {
        Some(KillingStatus::CommandoActed(commando, Some(target)))
    } else {
        None
    }
}

/// The wicked one's kill: the target dies unless it holds the power that
/// the wicked one has named.
pub open spec fn wicked_kill(
    seats: Map<PlayerId, Set<Power>>,
    wicked: PlayerId,
    killee: PlayerId,
    claim: Power,
) -> KillingStatus {
    if powers_of(seats, killee).contains(claim) {
        KillingStatus::WickedActed(wicked, None)
    } else {
        KillingStatus::WickedActed(wicked, Some(killee))
    }
}

/// The boss's kill of `victim`, which a commando among the victims answers
/// once in a game.
pub open spec fn boss_kill(
    seats: Map<PlayerId, Set<Power>>,
    intents: Map<Power, Seq<RawSpell>>,
    commando_used: bool,
    victim: PlayerId,
) -> KillingStatus {
    if powers_of(seats, victim).contains(Power::ShotOnKill) && !commando_used {
        match first_one(intents, Power::ShotOnKill) {
            Some((commando, _, target)) => match hit_mafia(seats, commando, target) {
                Some(status) => status,
                None => KillingStatus::BossKilled(victim),
            },
            None => KillingStatus::BossKilled(victim),
        }
    } else {
        KillingStatus::BossKilled(victim)
    }
}

/// The intent that the kill chain goes by: the first Reveal intent while
/// the wicked kill is unused, else, or where there is none, the first
/// NightKill intent.
pub open spec fn kill_command(intents: Map<Power, Seq<RawSpell>>, wicked_used: bool) -> Option<
    RawSpell,
> {
    if !wicked_used && first_intent(intents, Power::Reveal) is Some {
        first_intent(intents, Power::Reveal)
    } else {
        first_intent(intents, Power::NightKill)
    }
}

/// What the kill chain comes to; `None` where no intent commands a kill.
pub open spec fn killing(
    seats: Map<PlayerId, Set<Power>>,
    intents: Map<Power, Seq<RawSpell>>,
    wicked_used: bool,
    commando_used: bool,
) -> Option<KillingStatus> {
    match kill_command(intents, wicked_used) {
        Some((wicked, Power::Reveal, NightAct::Wicked(killee, claim))) => Some(
            wicked_kill(seats, wicked, killee, claim),
        ),
        Some((_, Power::NightKill, NightAct::One(victim))) => Some(
            boss_kill(seats, intents, commando_used, victim),
        ),
        _ => None,
    }
}

/// The participant that the kill chain would kill.
pub open spec fn produced(status: Option<KillingStatus>) -> Option<PlayerId> {
    match status {
        Some(KillingStatus::BossKilled(victim)) => Some(victim),
        Some(KillingStatus::WickedActed(_, victim)) => victim,
        Some(KillingStatus::CommandoActed(_, victim)) => victim,
        None => None,
    }
}

/// The participant who dies: the one that the kill chain produced, unless
/// healed.
pub open spec fn victim(status: Option<KillingStatus>, healed: Set<PlayerId>) -> Option<PlayerId> {
    match produced(status) {
        Some(id) if !healed.contains(id) => Some(id),
        _ => None,
    }
}

/// The seats once the one-shot power that the kill chain used is taken
/// from its holder.
pub open spec fn spent(seats: Map<PlayerId, Set<Power>>, status: Option<KillingStatus>) -> Map<
    PlayerId,
    Set<Power>,
> {
    match status {
        Some(KillingStatus::CommandoActed(from, _)) => without_powers(
            seats,
            from,
            set![Power::ShotOnKill],
        ),
        Some(KillingStatus::WickedActed(from, _)) => without_powers(
            seats,
            from,
            set![Power::Reveal],
        ),
        _ => seats,
    }
}

/// Whom the kill chain tells what: the holder of the one-shot power that it
/// used is told what it still holds, and nobody anything else.
pub open spec fn night_told<R: Room>(before: R, after: R, status: Option<KillingStatus>) -> bool {
    match status {
        Some(KillingStatus::CommandoActed(from, _)) => told_its_powers(before, after, from),
        Some(KillingStatus::WickedActed(from, _)) => told_its_powers(before, after, from),
        _ => told_nothing(before, after),
    }
}

/// What the investigator is told about `on`: of the mafia, and not in
/// disguise.
pub open spec fn seems_mafia(seats: Map<PlayerId, Set<Power>>, on: PlayerId) -> bool {
    powers_of(seats, on).contains(Power::Mafia) && !powers_of(seats, on).contains(Power::Disguise)
}

/// The notes of a night: the answer to the first Enquery intent that names
/// one participant.
pub open spec fn answers(seats: Map<PlayerId, Set<Power>>, intents: Map<Power, Seq<RawSpell>>) -> Map<
    PlayerId,
    Seq<HolyMessage>,
> {
    match first_one(intents, Power::Enquery) {
        Some((from, _, on)) => with_note(
            no_notes(),
            from,
            HolyMessage::IsMafia(on, seems_mafia(seats, on)),
        ),
        None => no_notes(),
    }
}

/// The weapons that one intent hands out, in the order of handing.
pub open spec fn handouts(spell: RawSpell) -> Seq<(PlayerId, DayEvent)> {
    match spell {
        (gunman, Power::HandGun, NightAct::One(first)) => seq![(first, DayEvent::RealGun(gunman))],
        (gunman, Power::HandGun, NightAct::Two(first, second)) => seq![
            (first, DayEvent::RealGun(gunman)),
            (second, DayEvent::FakeGun),
        ],
        (_, Power::HandFakeGun, NightAct::One(first)) => seq![(first, DayEvent::FakeGun)],
        (_, Power::HandFakeGun, NightAct::Two(first, second)) => seq![
            (first, DayEvent::FakeGun),
            (second, DayEvent::FakeGun),
        ],
        _ => Seq::empty(),
    }
}

/// `guns` after one weapon is handed out.
pub open spec fn handed(guns: Guns, to: (PlayerId, DayEvent)) -> Guns {
    match to.1 {
        DayEvent::RealGun(_) => guns.pass_real(to.0),
        DayEvent::FakeGun => guns.pass_fake(to.0),
    }
}

/// `guns` after the weapons `all` are handed out, the first one first.
pub open spec fn dealt(guns: Guns, all: Seq<(PlayerId, DayEvent)>) -> Guns
    decreases all.len(),
{
    if all.len() == 0 {
        guns
    } else {
        handed(dealt(guns, all.drop_last()), all.last())
    }
}

/// `guns` after each intent of `spells` has handed out its weapons.
pub open spec fn armed(guns: Guns, spells: Seq<RawSpell>) -> Guns
    decreases spells.len(),
{
    if spells.len() == 0 {
        guns
    } else {
        dealt(armed(guns, spells.drop_last()), handouts(spells.last()))
    }
}

/// The intents that hand out weapons: those for HandGun, or where there is
/// none those for HandFakeGun.
pub open spec fn gun_intents(intents: Map<Power, Seq<RawSpell>>) -> Seq<RawSpell> {
    if intents.contains_key(Power::HandGun) {
        intents[Power::HandGun]
    } else if intents.contains_key(Power::HandFakeGun) {
        intents[Power::HandFakeGun]
    } else {
        Seq::empty()
    }
}

/// The weapons that are out after a night: none once the real weapon has
/// been fired in this game, else those that the night's intents hand out.
pub open spec fn night_guns(intents: Map<Power, Seq<RawSpell>>, shotgun_done: bool) -> Guns {
    if shotgun_done {
        Guns::none(GUN_LIMIT)
    } else {
        armed(Guns::none(GUN_LIMIT), gun_intents(intents))
    }
}

/// What a shot of `shooter` at `on` comes to.
pub open spec fn shot_result(guns: Guns, shotgun_done: bool, shooter: PlayerId, on: PlayerId) -> ShootingResult {
    if shotgun_done {
        ShootingResult::NotAllowed
    } else {
        match guns.owner(shooter) {
            GunOwner::Real => ShootingResult::Killed(on),
            GunOwner::Fake => ShootingResult::EmptyGun(on),
            GunOwner::Invalid => ShootingResult::NotAllowed,
        }
    }
}

/// Night resolution, with what it has to remember from night to night.
pub struct Play {
    wicked_used: bool,
    commando_used: bool,
    shotgun_done: bool,
    guns: GunEvents,
}

/// What a night has brought about.
pub struct NightResult {
    msgs: Messages,
    removed: BTreeSet<PlayerId>,
}

impl NightResult {
    fn new(msgs: Messages, removed: BTreeSet<PlayerId>) -> (r: Self)
        ensures
            r.notes() == delivered(msgs),
            r.out() == removed@,
    {
        Self { msgs, removed }
    }
}

impl News for NightResult {
    closed spec fn notes(&self) -> Map<PlayerId, Seq<HolyMessage>> {
        delivered(self.msgs)
    }

    closed spec fn out(&self) -> Set<PlayerId> {
        self.removed@
    }

    fn messages(&self) -> (r: &Messages) {
        &self.msgs
    }

    fn kicked_out(&self) -> (r: &BTreeSet<PlayerId>) {
        &self.removed
    }
}

impl Play {
    /// Whether the wicked kill has been used in this game.
    pub closed spec fn wicked_used(&self) -> bool {
        self.wicked_used
    }

    /// Whether the commando has shot back in this game.
    pub closed spec fn commando_used(&self) -> bool {
        self.commando_used
    }

    /// Whether the real weapon has been fired in this game.
    pub closed spec fn shotgun_done(&self) -> bool {
        self.shotgun_done
    }

    /// The weapons that are out.
    pub closed spec fn guns(&self) -> Guns {
        self.guns@
    }

    /// No more weapons are out than the limits allow.
    pub open spec fn wf(&self) -> bool {
        self.guns().wf()
    }

    /// Whether this is the memory of a game before its first night.
    pub open spec fn is_fresh(&self) -> bool {
        &&& !self.wicked_used()
        &&& !self.commando_used()
        &&& !self.shotgun_done()
        &&& self.guns() == Guns::none(GUN_LIMIT)
    }

    pub fn new() -> (r: Self)
        ensures
            r.wf(),
            r.is_fresh(),
    {
        Self {
            wicked_used: false,
            commando_used: false,
            shotgun_done: false,
            guns: GunEvents::new(GUN_LIMIT),
        }
    }

    /// Voids the intents of the paralyzed participant, unless the guard
    /// protects that very participant.
    pub fn remove_paralyzed_unguarded_spell<R: Room, S: Spells>(room: &R, spells: &mut S)
        requires
            room.sound(),
            old(spells).sound(),
        ensures
            final(spells).sound(),
            final(spells).intents() == after_paralysis(room.seats(), old(spells).intents()),
    {
        let guarded: Option<PlayerId> = match spells.expect1(&Power::Guard) {
            Some(g) => Some(*g),
            None => None,
        };
        let paralyzed: Option<PlayerId> = match spells.expect1(&Power::Paralyze) {
            Some(p) => Some(*p),
            None => None,
        };
        match (paralyzed, guarded) {
            (Some(p), Some(g)) if p == g => {},
            (Some(p), _) => {
                let kinks = room.kinks(&p);
                let mut i: usize = 0;
                while i < kinks.len()
                    invariant
                        i <= kinks.len(),
                        spells.sound(),
                        spells.intents() == old(spells).intents().remove_keys(
                            kinks@.take(i as int).to_set(),
                        ),
                    decreases kinks.len() - i,
                {
                    spells.stop(&kinks[i]);
                    proof {
                        let before = kinks@.take(i as int);
                        let after = kinks@.take(i + 1);
                        assert(after =~= before.push(kinks@[i as int]));
                        before.lemma_push_to_set_commute(kinks@[i as int]);
                        assert(spells.intents() =~= old(spells).intents().remove_keys(
                            after.to_set(),
                        ));
                    }
                    i = i + 1;
                }
                assert(kinks@.take(kinks@.len() as int) =~= kinks@);
            },
            _ => {},
        }
    }

    /// The commando's answer to the boss.
    pub fn did_hit_mafia<R: Room>(room: &R, commando: PlayerId, target: PlayerId) -> (r: Option<
        KillingStatus,
    >)
        requires
            room.sound(),
        ensures
            r == hit_mafia(room.seats(), commando, target),
    {
        if room.has(&target, &Power::DodgeCommando) {
            Some(KillingStatus::CommandoActed(commando, None))
        } else if room.has(&target, &Power::Mafia) {
            Some(KillingStatus::CommandoActed(commando, Some(target)))
        } else {
            None
        }
    }

    /// The wicked one's kill.
    pub fn who_wicked_kills<R: Room>(room: &R, wicked: PlayerId, killee: PlayerId, power: &Power) -> (r:
        KillingStatus)
        requires
            room.sound(),
        ensures
            r == wicked_kill(room.seats(), wicked, killee, *power),
    {
        if room.has(&killee, power) {
            KillingStatus::WickedActed(wicked, None)
        } else {
            KillingStatus::WickedActed(wicked, Some(killee))
        }
    }

    /// What the kill chain of this night comes to.
    pub fn is_wicked_or_boss_killing<R: Room, S: Spells>(&self, room: &R, spells: &S) -> (r: Option<
        KillingStatus,
    >)
        requires
            room.sound(),
            spells.sound(),
        ensures
            r == killing(
                room.seats(),
                spells.intents(),
                self.wicked_used(),
                self.commando_used(),
            ),
    {
        let revealed: Option<&RawSpell> = if self.wicked_used {
            None
        } else {
            spells.raw(&Power::Reveal)
        };
        let chosen: Option<&RawSpell> = match revealed {
            Some(spell) => Some(spell),
            None => spells.raw(&Power::NightKill),
        };
        match chosen {
            Some(spell) => {
                let (from, tag, act) = *spell;
                match (tag, act) {
                    (Power::Reveal, NightAct::Wicked(killee, claim)) => Some(
                        Self::who_wicked_kills(room, from, killee, &claim),
                    ),
                    (Power::NightKill, NightAct::One(player)) => {
                        if room.has(&player, &Power::ShotOnKill) && !self.commando_used {
                            match spells.one(&Power::ShotOnKill) {
                                Some((commando, _, target)) => {
                                    match Self::did_hit_mafia(room, commando, target) {
                                        Some(status) => Some(status),
                                        None => Some(KillingStatus::BossKilled(player)),
                                    }
                                },
                                None => Some(KillingStatus::BossKilled(player)),
                            }
                        } else {
                            Some(KillingStatus::BossKilled(player))
                        }
                    },
                    _ => None,
                }
            },
            None => None,
        }
    }

    /// The participants that the first intent for `power` names.
    pub fn get_player_ids<S: Spells>(spells: &S, power: &Power) -> (r: Vec<PlayerId>)
        requires
            spells.sound(),
        ensures
            r@ == player_ids(spells.intents(), *power),
    {
        let mut data: Vec<PlayerId> = Vec::new();
        match spells.get(power) {
            Some(NightAct::One(a)) => {
                data.push(*a);
            },
            Some(NightAct::Two(a, b)) => {
                data.push(*a);
                data.push(*b);
            },
            _ => {},
        }
        assert(data@ =~= player_ids(spells.intents(), *power));
        data
    }

    /// Those whom the healer protects in a room of `total`.
    pub fn heals<S: Spells>(spells: &S, total: usize) -> (r: BTreeSet<PlayerId>)
        requires
            spells.sound(),
        ensures
            r@ == healed(spells.intents(), total as nat),
    {
        let ids = Self::get_player_ids(spells, &Power::Heal);
        let n: usize = if total >= WIDE_HEAL_FROM {
            2
        } else {
            1
        };
        let mut set: BTreeSet<PlayerId> = BTreeSet::new();
        if ids.len() >= 1 {
            set.insert(ids[0]);
        }
        if ids.len() >= 2 && n == 2 {
            set.insert(ids[1]);
        }
        assert(set@ =~= healed(spells.intents(), total as nat));
        set
    }

    /// Runs the kill chain and takes the one-shot power that it used from
    /// its holder. Says who dies, if anybody, or that nothing commanded a
    /// kill.
    pub fn remove_killed_one<R: Room, S: Spells>(&mut self, room: &mut R, spells: &S) -> (r: Result<
        Option<PlayerId>,
        Error,
    >)
        requires
            old(room).sound(),
            spells.sound(),
        ensures
            final(room).sound(),
            final(self).guns() == old(self).guns(),
            final(self).shotgun_done() == old(self).shotgun_done(),
            night_kill(
                old(room).seats(),
                spells.intents(),
                old(self).wicked_used(),
                old(self).commando_used(),
                final(room).seats(),
                final(self).wicked_used(),
                final(self).commando_used(),
            ),
            night_told(
                *old(room),
                *final(room),
                killing(
                    old(room).seats(),
                    spells.intents(),
                    old(self).wicked_used(),
                    old(self).commando_used(),
                ),
            ),
            match r {
                Ok(dead) => killing(
                    old(room).seats(),
                    spells.intents(),
                    old(self).wicked_used(),
                    old(self).commando_used(),
                ) is Some && dead == night_victim(
                    old(room).seats(),
                    spells.intents(),
                    old(self).wicked_used(),
                    old(self).commando_used(),
                ),
                Err(text) => killing(
                    old(room).seats(),
                    spells.intents(),
                    old(self).wicked_used(),
                    old(self).commando_used(),
                ) is None && text@ == no_kill_command(),
            },
    {
        proof {
            room.sound_is_finite();
        }
        let heals = Self::heals(spells, room.total());
        let killing = match self.is_wicked_or_boss_killing(room, spells) {
            Some(status) => status,
            None => {
                return Err("No Kill command".to_owned());
            },
        };
        let res = match killing {
            KillingStatus::BossKilled(p) => {
                if !heals.contains(&p) {
                    Some(p)
                } else {
                    None
                }
            },
            KillingStatus::CommandoActed(from, res) => {
                room.drop_kinks(&from, [Power::ShotOnKill]);
                self.commando_used = true;
                proof {
                    assert([Power::ShotOnKill]@.to_set() =~= set![Power::ShotOnKill]) by {
                        assert([Power::ShotOnKill]@[0] == Power::ShotOnKill);
                    }
                }
                match res {
                    Some(id) => {
                        if heals.contains(&id) {
                            None
                        } else {
                            Some(id)
                        }
                    },
                    None => None,
                }
            },
            KillingStatus::WickedActed(from, res) => {
                room.drop_kinks(&from, [Power::Reveal]);
                self.wicked_used = true;
                proof {
                    assert([Power::Reveal]@.to_set() =~= set![Power::Reveal]) by {
                        assert([Power::Reveal]@[0] == Power::Reveal);
                    }
                }
                match res {
                    Some(id) => {
                        if heals.contains(&id) {
                            None
                        } else {
                            Some(id)
                        }
                    },
                    None => None,
                }
            },
        };
        Ok(res)
    }
}

impl Play {
    /// Tells the investigator whether the participant that the first
    /// Enquery intent names seems to be of the mafia.
    pub fn detective<R: Room, S: Spells>(room: &R, msgs: &mut Messages, spells: &S)
        requires
            room.sound(),
            spells.sound(),
        ensures
            delivered(*final(msgs)) == match first_one(spells.intents(), Power::Enquery) {
                Some((from, _, on)) => with_note(
                    delivered(*old(msgs)),
                    from,
                    HolyMessage::IsMafia(on, seems_mafia(room.seats(), on)),
                ),
                None => delivered(*old(msgs)),
            },
    {
        if let Some((from, _, on)) = spells.one(&Power::Enquery) {
            let mut is_mafia = room.has(&on, &Power::Mafia);
            is_mafia = is_mafia && !room.has(&on, &Power::Disguise);
            add_message(msgs, from, HolyMessage::IsMafia(on, is_mafia));
        }
    }

    /// Hands one weapon out.
    fn hand(guns: &mut GunEvents, to: PlayerId, what: DayEvent)
        requires
            old(guns)@.wf(),
        ensures
            final(guns)@.wf(),
            final(guns)@ == handed(old(guns)@, (to, what)),
    {
        match what {
            DayEvent::RealGun(_) => {
                guns.pass_real(to);
            },
            DayEvent::FakeGun => {
                guns.pass_fake(to);
            },
        }
    }

    /// Hands out the weapons that the night's intents ask for, unless the
    /// real weapon has been fired in this game.
    pub fn gunman<S: Spells>(&mut self, spells: &S)
        requires
            old(self).wf(),
            spells.sound(),
        ensures
            final(self).wf(),
            final(self).wicked_used() == old(self).wicked_used(),
            final(self).commando_used() == old(self).commando_used(),
            final(self).shotgun_done() == old(self).shotgun_done(),
            final(self).guns() == if old(self).shotgun_done() {
                old(self).guns()
            } else {
                armed(old(self).guns(), gun_intents(spells.intents()))
            },
    {
        if self.shotgun_done {
            return ;
        }
        let act: Vec<&RawSpell> = match spells.raw_vec(&Power::HandGun) {
            Some(v) => v,
            None => match spells.raw_vec(&Power::HandFakeGun) {
                Some(v) => v,
                None => Vec::new(),
            },
        };
        let ghost all = gun_intents(spells.intents());
        let mut i: usize = 0;
        while i < act.len()
            invariant
                i <= act.len(),
                act@.len() == all.len(),
                forall|j: int| 0 <= j < act@.len() ==> *(#[trigger] act@[j]) == all[j],
                self.guns@.wf(),
                self.guns@ == armed(old(self).guns(), all.take(i as int)),
                self.wicked_used == old(self).wicked_used,
                self.commando_used == old(self).commando_used,
                self.shotgun_done == old(self).shotgun_done,
            decreases act.len() - i,
        {
            let (gunman, power, night_act) = *act[i];
            proof {
                assert(all.take(i + 1).drop_last() =~= all.take(i as int));
                assert(all.take(i + 1).last() == all[i as int]);
                lemma_dealt_few(self.guns@, handouts(all[i as int]));
            }
            match (power, night_act) {
                (Power::HandGun, NightAct::One(first)) => {
                    Self::hand(&mut self.guns, first, DayEvent::RealGun(gunman));
                },
                (Power::HandGun, NightAct::Two(first, second)) => {
                    Self::hand(&mut self.guns, first, DayEvent::RealGun(gunman));
                    Self::hand(&mut self.guns, second, DayEvent::FakeGun);
                },
                (Power::HandFakeGun, NightAct::One(first)) => {
                    Self::hand(&mut self.guns, first, DayEvent::FakeGun);
                },
                (Power::HandFakeGun, NightAct::Two(first, second)) => {
                    Self::hand(&mut self.guns, first, DayEvent::FakeGun);
                    Self::hand(&mut self.guns, second, DayEvent::FakeGun);
                },
                _ => {},
            }
            i = i + 1;
        }
        assert(all.take(all.len() as int) =~= all);
    }

    /// Resolves one night: interception, healing, the kill chain, the
    /// investigation and the handing out of weapons. The holder of a
    /// one-shot power that was used is told what it still holds.
    pub fn apply_night<R: Room, S: Spells>(&mut self, room: &mut R, spells: S) -> (r: NightResult)
        requires
            old(self).wf(),
            old(room).sound(),
            spells.sound(),
        ensures
            final(self).wf(),
            final(room).sound(),
            resolved(
                *old(self),
                old(room).seats(),
                spells.intents(),
                *final(self),
                final(room).seats(),
                r.out(),
                r.notes(),
            ),
            night_told(
                *old(room),
                *final(room),
                killing(
                    old(room).seats(),
                    after_paralysis(old(room).seats(), spells.intents()),
                    old(self).wicked_used(),
                    old(self).commando_used(),
                ),
            ),
            r.out().finite(),
            r.out().len() <= 1,
            forall|id: PlayerId|
                healed(
                    after_paralysis(old(room).seats(), spells.intents()),
                    old(room).seats().dom().len(),
                ).contains(id) ==> !r.out().contains(id),
    {
        let mut spells = spells;
        self.guns = GunEvents::new(GUN_LIMIT);
        Self::remove_paralyzed_unguarded_spell(room, &mut spells);
        let mut deads: BTreeSet<PlayerId> = BTreeSet::new();
        match self.remove_killed_one(room, &spells) {
            Ok(Some(killed)) => {
                deads.insert(killed);
            },
            _ => {},
        }
        let mut msgs = no_messages();
        self.gunman(&spells);
        Self::detective(room, &mut msgs, &spells);
        let result = NightResult::new(msgs, deads);
        proof {
            assert(result.out() =~= match night_victim(
                old(room).seats(),
                spells.intents(),
                old(self).wicked_used(),
                old(self).commando_used(),
            ) {
                Some(dead) => set![dead],
                None => Set::empty(),
            });
        }
        result
    }

    /// `shooter` fires at `on` by day. The real weapon kills and ends all
    /// shooting for the game; a decoy is spent.
    pub fn shoot<R: Room>(&mut self, room: &mut R, shooter: &PlayerId, on: PlayerId) -> (r:
        ShootingResult)
        requires
            old(self).wf(),
        ensures
            final(self).wf(),
            *final(room) == *old(room),
            fired(*old(self), *final(self), *shooter, on, r),
    {
        if self.shotgun_done {
            return ShootingResult::NotAllowed;
        }
        match self.guns.try_shooting(shooter) {
            GunOwner::Real => {
                self.shotgun_done = true;
                ShootingResult::Killed(on)
            },
            GunOwner::Fake => ShootingResult::EmptyGun(on),
            GunOwner::Invalid => ShootingResult::NotAllowed,
        }
    }
}

/// What a night does: with the intents that the paralysis leaves, the kill
/// chain spends its one-shot power and sets its flag, whoever it produces
/// dies unless healed, the investigator is answered from the seats after
/// the night, and the weapons of the day are those that the night hands
/// out.
pub open spec fn resolved(
    before: Play,
    seats: Map<PlayerId, Set<Power>>,
    intents: Map<Power, Seq<RawSpell>>,
    after: Play,
    seats_after: Map<PlayerId, Set<Power>>,
    out: Set<PlayerId>,
    notes: Map<PlayerId, Seq<HolyMessage>>,
) -> bool {
    let left = after_paralysis(seats, intents);
    &&& after.shotgun_done() == before.shotgun_done()
    &&& after.guns() == night_guns(left, before.shotgun_done())
    &&& night_kill(
        seats,
        left,
        before.wicked_used(),
        before.commando_used(),
        seats_after,
        after.wicked_used(),
        after.commando_used(),
    )
    &&& out == match night_victim(seats, left, before.wicked_used(), before.commando_used()) {
        Some(dead) => set![dead],
        None => Set::empty(),
    }
    &&& notes == answers(seats_after, left)
}

/// What a shot of `shooter` at `on` does: the real weapon kills and ends
/// all shooting for the game, a decoy is spent, and anybody else is not
/// allowed to shoot.
pub open spec fn fired(
    before: Play,
    after: Play,
    shooter: PlayerId,
    on: PlayerId,
    res: ShootingResult,
) -> bool {
    &&& res == shot_result(before.guns(), before.shotgun_done(), shooter, on)
    &&& after.wicked_used() == before.wicked_used()
    &&& after.commando_used() == before.commando_used()
    &&& after.shotgun_done() == (before.shotgun_done() || res == ShootingResult::Killed(on))
    &&& after.guns() == if before.shotgun_done() {
        before.guns()
    } else {
        before.guns().shot(shooter)
    }
}

/// Handing out at most two weapons, written out.
pub proof fn lemma_dealt_few(guns: Guns, all: Seq<(PlayerId, DayEvent)>)
    requires
        all.len() <= 2,
    ensures
        all.len() == 0 ==> dealt(guns, all) == guns,
        all.len() == 1 ==> dealt(guns, all) == handed(guns, all[0]),
        all.len() == 2 ==> dealt(guns, all) == handed(handed(guns, all[0]), all[1]),
{
    reveal_with_fuel(dealt, 3);
    if all.len() == 2 {
        assert(all.drop_last().len() == 1);
        assert(all.drop_last().drop_last().len() == 0);
        assert(all.drop_last()[0] == all[0]);
    }
}

/// Who dies in a night with these seats, intents and flags.
pub open spec fn night_victim(
    seats: Map<PlayerId, Set<Power>>,
    intents: Map<Power, Seq<RawSpell>>,
    wicked_used: bool,
    commando_used: bool,
) -> Option<PlayerId> {
    victim(
        killing(seats, intents, wicked_used, commando_used),
        healed(intents, seats.dom().len()),
    )
}

/// How the kill chain of a night changes the seats and the two one-shot
/// flags: the power that it used leaves its holder, and a flag is set
/// exactly when it was set before or its power has acted.
pub open spec fn night_kill(
    seats: Map<PlayerId, Set<Power>>,
    intents: Map<Power, Seq<RawSpell>>,
    wicked_used: bool,
    commando_used: bool,
    seats_after: Map<PlayerId, Set<Power>>,
    wicked_after: bool,
    commando_after: bool,
) -> bool {
    let status = killing(seats, intents, wicked_used, commando_used);
    &&& seats_after == spent(seats, status)
    &&& wicked_after == (wicked_used || status matches Some(KillingStatus::WickedActed(_, _)))
    &&& commando_after == (commando_used || status matches Some(
        KillingStatus::CommandoActed(_, _),
    ))
}

/// Whoever is healed does not die in the night, whatever the kill chain
/// came to: the boss's victim, the commando's and the wicked one's alike.
pub proof fn law_healed_survive(
    seats: Map<PlayerId, Set<Power>>,
    intents: Map<Power, Seq<RawSpell>>,
    wicked_used: bool,
    commando_used: bool,
    id: PlayerId,
)
    requires
        healed(intents, seats.dom().len()).contains(id),
    ensures
        night_victim(seats, intents, wicked_used, commando_used) != Some(id),
{
}

/// The participant that the first intent for `power` names, where it names
/// exactly one.
pub open spec fn sole_target(intents: Map<Power, Seq<RawSpell>>, power: Power) -> Option<PlayerId> {
    match first_one(intents, power) {
        Some((_, _, on)) => Some(on),
        None => None,
    }
}

/// A paralyzed participant whom the guard protects keeps every intent.
pub proof fn law_guard_shields_paralyzed(
    seats: Map<PlayerId, Set<Power>>,
    intents: Map<Power, Seq<RawSpell>>,
)
    requires
        sole_target(intents, Power::Paralyze) is Some,
        sole_target(intents, Power::Guard) == sole_target(intents, Power::Paralyze),
    ensures
        after_paralysis(seats, intents) == intents,
{
}

/// A paralyzed participant whom the guard does not protect loses the
/// intents of every power held, and the intents of no other power change.
pub proof fn law_paralysis_voids(
    seats: Map<PlayerId, Set<Power>>,
    intents: Map<Power, Seq<RawSpell>>,
    power: Power,
)
    requires
        sole_target(intents, Power::Paralyze) is Some,
        sole_target(intents, Power::Guard) != sole_target(intents, Power::Paralyze),
    ensures
        ({
            let paralyzed = sole_target(intents, Power::Paralyze)->0;
            let left = after_paralysis(seats, intents);
            if powers_of(seats, paralyzed).contains(power) {
                !left.contains_key(power) && first_intent(left, power) is None
            } else {
                left.contains_key(power) == intents.contains_key(power) && (left.contains_key(
                    power,
                ) ==> left[power] == intents[power])
            }
        }),
{
}

/// The commando shoots back at most once in a game: the kill chain comes to
/// a counter-shot only while none has been fired, and a counter-shot sets
/// the flag whether or not it kills.
pub proof fn law_commando_once(
    seats: Map<PlayerId, Set<Power>>,
    intents: Map<Power, Seq<RawSpell>>,
    wicked_used: bool,
    commando_used: bool,
    seats_after: Map<PlayerId, Set<Power>>,
    wicked_after: bool,
    commando_after: bool,
)
    requires
        night_kill(
            seats,
            intents,
            wicked_used,
            commando_used,
            seats_after,
            wicked_after,
            commando_after,
        ),
    ensures
        killing(seats, intents, wicked_used, commando_used) matches Some(
            KillingStatus::CommandoActed(_, _),
        ) ==> !commando_used && commando_after,
        commando_used ==> commando_after,
        !(killing(seats, intents, wicked_used, commando_used) matches Some(
            KillingStatus::CommandoActed(_, _),
        )) ==> commando_after == commando_used,
{
}

/// Where the boss commands the kill, the night kills nobody but the boss's
/// target or the commando's, and never both.
pub proof fn law_counter_shot_kills_one(
    seats: Map<PlayerId, Set<Power>>,
    intents: Map<Power, Seq<RawSpell>>,
    wicked_used: bool,
    commando_used: bool,
    boss: PlayerId,
    target: PlayerId,
)
    requires
        kill_command(intents, wicked_used) == Some((boss, Power::NightKill, NightAct::One(target))),
    ensures
        match night_victim(seats, intents, wicked_used, commando_used) {
            Some(dead) => dead == target || (first_one(intents, Power::ShotOnKill) matches Some(
                (_, _, counter),
            ) && dead == counter),
            None => true,
        },
{
}

/// The wicked kill fires at most once in a game: once it is used the kill
/// chain goes by the NightKill intent alone, as if there were no Reveal
/// intent, and the flag stays set.
pub proof fn law_wicked_once(
    seats: Map<PlayerId, Set<Power>>,
    intents: Map<Power, Seq<RawSpell>>,
    commando_used: bool,
)
    requires
        tagged(intents),
    ensures
        !(killing(seats, intents, true, commando_used) matches Some(
            KillingStatus::WickedActed(_, _),
        )),
        kill_command(intents, true) == first_intent(intents, Power::NightKill),
        kill_command(intents, true) == kill_command(intents.remove(Power::Reveal), true),
{
}

/// A wicked kill, whether or not its target dies, sets the flag and takes
/// the Reveal power from the wicked one.
pub proof fn law_wicked_kill_is_spent(
    seats: Map<PlayerId, Set<Power>>,
    intents: Map<Power, Seq<RawSpell>>,
    commando_used: bool,
    seats_after: Map<PlayerId, Set<Power>>,
    wicked_after: bool,
    commando_after: bool,
    wicked: PlayerId,
    dead: Option<PlayerId>,
)
    requires
        night_kill(seats, intents, false, commando_used, seats_after, wicked_after, commando_after),
        killing(seats, intents, false, commando_used) == Some(
            KillingStatus::WickedActed(wicked, dead),
        ),
    ensures
        wicked_after,
        !powers_of(seats_after, wicked).contains(Power::Reveal),
{
}

/// Where the night's weapons go by one intent for two recipients, both
/// are armed for the day: with HandGun the first holds the real weapon and
/// the second a decoy, with HandFakeGun each holds a decoy and nobody a
/// real weapon.
pub proof fn law_two_recipients_are_armed(
    intents: Map<Power, Seq<RawSpell>>,
    gunman: PlayerId,
    power: Power,
    first: PlayerId,
    second: PlayerId,
    on: PlayerId,
)
    requires
        power == Power::HandGun || power == Power::HandFakeGun,
        gun_intents(intents) == seq![(gunman, power, NightAct::Two(first, second))],
        first != second,
    ensures
        ({
            let guns = night_guns(intents, false);
            &&& shot_result(guns, false, second, on) == ShootingResult::EmptyGun(on)
            &&& shot_result(guns, false, first, on) == if power == Power::HandGun {
                ShootingResult::Killed(on)
            } else {
                ShootingResult::EmptyGun(on)
            }
            &&& power == Power::HandFakeGun ==> guns.reals == Set::<PlayerId>::empty()
        }),
{
    let spell = (gunman, power, NightAct::Two(first, second));
    let spells = gun_intents(intents);
    let none = Guns::none(GUN_LIMIT);
    reveal_with_fuel(armed, 2);
    assert(spells.drop_last().len() == 0);
    assert(spells.last() == spell);
    assert(armed(none, spells) == dealt(none, handouts(spell)));
    lemma_dealt_few(none, handouts(spell));
    assert(none.held() == 0);
    if power == Power::HandGun {
        let one = none.pass_real(first);
        assert(one.reals =~= set![first]);
        assert(one.held() == 1);
    } else {
        let one = none.pass_fake(first);
        assert(one.fakes =~= set![first]);
        assert(one.held() == 1);
    }
}

} // verus!
