use vstd::prelude::*;
use std::collections::BTreeMap;
use crate::room::{
    ascending, first_intent, first_one, first_two, holders, others_told_as_before, powers_of,
    tagged, told_its_powers, with_powers, without_powers, NightAct, RawSpell, Room, Spells,
};
use crate::roster::keys_of;
use crate::scenario::{HolyMessage, Meta, Power, Pray};
use crate::waiting::{GodWayRef, PlayerId};

verus! {

broadcast use vstd::std_specs::btree::group_btree_axioms;

/// Whether `power` is among `powers`.
pub fn holds(powers: &Vec<Power>, power: &Power) -> (r: bool)
    ensures
        r == powers@.contains(*power),
{
    let mut i: usize = 0;
    while i < powers.len()
        invariant
            i <= powers.len(),
            forall|j: int| 0 <= j < i ==> powers@[j] != *power,
        decreases powers.len() - i,
    {
        if powers[i] == *power {
            return true;
        }
        i = i + 1;
    }
    false
}

/// A copy of `powers`.
pub fn copied(powers: &Vec<Power>) -> (r: Vec<Power>)
    ensures
        r@ == powers@,
{
    let mut out: Vec<Power> = Vec::new();
    let mut i: usize = 0;
    while i < powers.len()
        invariant
            i <= powers.len(),
            out@ == powers@.take(i as int),
        decreases powers.len() - i,
    {
        out.push(powers[i]);
        assert(out@ =~= powers@.take(i + 1));
        i = i + 1;
    }
    assert(powers@.take(powers@.len() as int) =~= powers@);
    out
}

/// Adds to `powers` those of `more` that are not yet among them.
pub fn granted(powers: &mut Vec<Power>, more: &Vec<Power>)
    requires
        old(powers)@.no_duplicates(),
    ensures
        final(powers)@.no_duplicates(),
        final(powers)@.to_set() == old(powers)@.to_set().union(more@.to_set()),
{
    let mut i: usize = 0;
    while i < more.len()
        invariant
            i <= more.len(),
            powers@.no_duplicates(),
            powers@.to_set() == old(powers)@.to_set().union(more@.take(i as int).to_set()),
        decreases more.len() - i,
    {
        let power = more[i];
        proof {
            assert(more@.take(i + 1) =~= more@.take(i as int).push(power));
            more@.take(i as int).lemma_push_to_set_commute(power);
        }
        if !holds(powers, &power) {
            proof {
                powers@.lemma_push_to_set_commute(power);
            }
            powers.push(power);
        }
        assert(powers@.to_set() =~= old(powers)@.to_set().union(more@.take(i + 1).to_set()));
        i = i + 1;
    }
    assert(more@.take(more@.len() as int) =~= more@);
}

/// `powers` without those of `gone`, in their order.
pub fn revoked(powers: &Vec<Power>, gone: &[Power]) -> (r: Vec<Power>)
    requires
        powers@.no_duplicates(),
    ensures
        r@.no_duplicates(),
        r@.to_set() == powers@.to_set().difference(gone@.to_set()),
{
    let mut out: Vec<Power> = Vec::new();
    let mut i: usize = 0;
    while i < powers.len()
        invariant
            i <= powers.len(),
            powers@.no_duplicates(),
            out@.no_duplicates(),
            out@.to_set() == powers@.take(i as int).to_set().difference(gone@.to_set()),
        decreases powers.len() - i,
    {
        let power = powers[i];
        proof {
            assert(powers@.take(i + 1) =~= powers@.take(i as int).push(power));
            powers@.take(i as int).lemma_push_to_set_commute(power);
            out@.lemma_push_to_set_commute(power);
            if powers@.take(i as int).contains(power) {
                let j = choose|j: int| 0 <= j < i && powers@.take(i as int)[j] == power;
                assert(powers@[j] == powers@[i as int]);
            }
        }
        if !among(gone, &power) {
            let ghost kept = out@;
            out.push(power);
            proof {
                assert(!kept.contains(power)) by {
                    if kept.contains(power) {
                        assert(kept.to_set().contains(power));
                    }
                }
                assert forall|a: int, b: int| 0 <= a < b < out@.len() implies out@[a]
                    != out@[b] by {
                    if b == kept.len() {
                        assert(kept[a] == out@[a]);
                    } else {
                        assert(kept[a] == out@[a] && kept[b] == out@[b]);
                    }
                }
            }
        }
        assert(out@.to_set() =~= powers@.take(i + 1).to_set().difference(gone@.to_set()));
        i = i + 1;
    }
    assert(powers@.take(powers@.len() as int) =~= powers@);
    out
}

/// Whether `power` is among `list`.
pub fn among(list: &[Power], power: &Power) -> (r: bool)
    ensures
        r == list@.contains(*power),
{
    let mut i: usize = 0;
    while i < list.len()
        invariant
            i <= list.len(),
            forall|j: int| 0 <= j < i ==> list@[j] != *power,
        decreases list.len() - i,
    {
        if list[i] == *power {
            return true;
        }
        i = i + 1;
    }
    false
}

/// Whether an intent uses a power among `held`.
pub open spec fn uses_held(held: Set<Power>) -> spec_fn(Pray) -> bool {
    |pray: Pray| held.contains(pray.action)
}

/// Those of `prays` that use a power among `held`, in their order.
pub open spec fn kept(held: Set<Power>, prays: Seq<Pray>) -> Seq<Pray> {
    prays.filter(uses_held(held))
}

/// Keeps of `arrived` the intents that use one of `powers`, in their
/// order.
pub fn held_only(powers: &Vec<Power>, arrived: Vec<Pray>) -> (r: Vec<Pray>)
    ensures
        r@ == kept(powers@.to_set(), arrived@),
{
    let ghost all = arrived@;
    let ghost held = uses_held(powers@.to_set());
    let mut arrived = arrived;
    let mut msgs: Vec<Pray> = Vec::new();
    while arrived.len() > 0
        invariant
            held == uses_held(powers@.to_set()),
            msgs@ + arrived@.filter(held) == all.filter(held),
        decreases arrived.len(),
    {
        let ghost before = arrived@;
        let ghost so_far = msgs@;
        let pray = arrived.remove(0);
        proof {
            assert(before =~= seq![pray] + arrived@);
            arrived@.lemma_filter_prepend(pray, held);
        }
        if holds(powers, &pray.action) {
            msgs.push(pray);
        }
        assert(msgs@ + arrived@.filter(held) =~= so_far + before.filter(held));
    }
    proof {
        reveal(Seq::filter);
        assert(arrived@.filter(held) =~= Seq::<Pray>::empty());
        assert(msgs@ =~= all.filter(held));
    }
    msgs
}

/// A seated participant: the powers held, and the channel to the
/// participant.
struct Player {
    powers: Vec<Power>,
    connection: GodWayRef,
}

impl Player {
    fn new(con: GodWayRef) -> (r: Self)
        ensures
            r.powers@ == Seq::<Power>::empty(),
            r.connection == con,
    {
        Self { powers: Vec::new(), connection: con }
    }
}

/// The capability store of one game, with a channel to each participant.
pub struct InMemoryRoom {
    players: BTreeMap<PlayerId, Player>,
}

impl InMemoryRoom {
    /// A room that seats the participants of `cons`, none with a power.
    pub fn new(cons: BTreeMap<PlayerId, GodWayRef>) -> (r: Self)
        ensures
            r.sound(),
            r.seats() == Map::new(
                |id: PlayerId| cons@.contains_key(id),
                |id: PlayerId| Set::<Power>::empty(),
            ),
            forall|id: PlayerId|
                r.told_to(id) == if cons@.contains_key(id) {
                    cons@[id].told()
                } else {
                    Seq::empty()
                },
    {
        let mut cons = cons;
        let ghost given = cons@;
        let ids = keys_of(&cons);
        let mut players: BTreeMap<PlayerId, Player> = BTreeMap::new();
        let mut i: usize = 0;
        while i < ids.len()
            invariant
                i <= ids.len(),
                ascending(ids@),
                ids@.to_set() == given.dom(),
                forall|id: PlayerId|
                    players@.contains_key(id) <==> exists|j: int| 0 <= j < i && ids@[j] == id,
                forall|id: PlayerId| #[trigger]
                    players@.contains_key(id) ==> players@[id].powers@ == Seq::<Power>::empty(),
                forall|id: PlayerId| #[trigger]
                    players@.contains_key(id) ==> players@[id].connection == given[id],
                forall|j: int|
                    i <= j < ids.len() ==> cons@.contains_key(#[trigger] ids@[j]) && cons@[ids@[j]]
                        == given[ids@[j]],
            decreases ids.len() - i,
        {
            let id = ids[i];
            match cons.remove(&id) {
                Some(con) => {
                    players.insert(id, Player::new(con));
                },
                None => {},
            }
            i = i + 1;
        }
        let room = InMemoryRoom { players };
        proof {
            assert forall|id: PlayerId| given.contains_key(id) implies room.players@.contains_key(
                id,
            ) by {
                assert(ids@.to_set().contains(id));
            }
            assert forall|id: PlayerId| room.players@.contains_key(id) implies given.contains_key(
                id,
            ) by {
                let j = choose|j: int| 0 <= j < ids.len() && ids@[j] == id;
                assert(ids@.to_set().contains(ids@[j]));
            }
            assert forall|id: PlayerId| room.players@.contains_key(id) implies room.players@[id].powers@.to_set()
                == Set::<Power>::empty() by {
                assert(room.players@[id].powers@.to_set() =~= Set::<Power>::empty());
            }
            assert(room.seats() =~= Map::new(
                |id: PlayerId| given.contains_key(id),
                |id: PlayerId| Set::<Power>::empty(),
            ));
        }
        room
    }

    /// Whether `id` has a seat.
    pub fn seated(&self, id: &PlayerId) -> (r: bool)
        ensures
            r == self.seats().contains_key(*id),
    {
        self.players.contains_key(id)
    }

    /// Grants `powers` to `id` and hands the note of what `id` now holds
    /// to its channel. Fails on a participant without a seat.
    pub fn assign(&mut self, id: &PlayerId, powers: Vec<Power>) -> (r: bool)
        requires
            old(self).sound(),
        ensures
            final(self).sound(),
            r == old(self).seats().contains_key(*id),
            final(self).seats() == with_powers(old(self).seats(), *id, powers@.to_set()),
            told_its_powers(*old(self), *final(self), *id),
    {
        match self.players.remove(id) {
            Some(mut p) => {
                granted(&mut p.powers, &powers);
                let held = copied(&p.powers);
                let ghost note = HolyMessage::Assigned(held);
                p.connection.tell(HolyMessage::Assigned(held));
                self.players.insert(*id, p);
                proof {
                    assert(self.seats() =~= with_powers(
                        old(self).seats(),
                        *id,
                        powers@.to_set(),
                    ));
                    let before = old(self).told_to(*id);
                    assert(self.told_to(*id) == before.push(note));
                    assert(before.push(note).drop_last() =~= before);
                    assert(before.push(note).last() == note);
                }
                true
            },
            None => {
                assert(self.players@ =~= old(self).players@);
                false
            },
        }
    }

    /// Hands `msg` to the channel of `id`, if `id` has a seat. Says whether
    /// the participant has a seat and its channel had room.
    pub fn text_to(&mut self, id: &PlayerId, msg: HolyMessage) -> (r: bool)
        requires
            old(self).sound(),
        ensures
            final(self).sound(),
            final(self).seats() == old(self).seats(),
            r ==> old(self).seats().contains_key(*id),
            others_told_as_before(*old(self), *final(self), *id),
            final(self).told_to(*id) == if old(self).seats().contains_key(*id) {
                old(self).told_to(*id).push(msg)
            } else {
                old(self).told_to(*id)
            },
    {
        match self.players.remove(id) {
            Some(mut p) => {
                let sent = p.connection.tell(msg);
                self.players.insert(*id, p);
                proof {
                    assert(self.seats() =~= old(self).seats());
                }
                sent
            },
            None => {
                assert(self.players@ =~= old(self).players@);
                false
            },
        }
    }

    /// Takes from every participant's channel the intents that have
    /// arrived, whatever power they name.
    pub fn read_all(&mut self) -> (r: BTreeMap<PlayerId, Vec<Pray>>)
        requires
            old(self).sound(),
        ensures
            final(self).sound(),
            final(self).seats() == old(self).seats(),
            r@.dom() == old(self).seats().dom(),
            forall|id: PlayerId| final(self).told_to(id) == old(self).told_to(id),
    {
        let mut res: BTreeMap<PlayerId, Vec<Pray>> = BTreeMap::new();
        let ids = keys_of(&self.players);
        let mut i: usize = 0;
        while i < ids.len()
            invariant
                i <= ids.len(),
                self.sound(),
                forall|id: PlayerId| self.told_to(id) == old(self).told_to(id),
                self.seats() == old(self).seats(),
                ids@.to_set() == old(self).seats().dom(),
                forall|id: PlayerId|
                    res@.contains_key(id) <==> exists|j: int| 0 <= j < i && ids@[j] == id,
            decreases ids.len() - i,
        {
            let id = ids[i];
            let ghost before = self.players@;
            let prays = match self.players.remove(&id) {
                Some(mut p) => {
                    let prays = p.connection.drain();
                    self.players.insert(id, p);
                    proof {
                        assert(self.seats() =~= old(self).seats());
                    }
                    prays
                },
                None => {
                    assert(self.players@ =~= before);
                    Vec::new()
                },
            };
            res.insert(id, prays);
            i = i + 1;
        }
        proof {
            assert forall|id: PlayerId| old(self).seats().contains_key(id) implies res@.contains_key(
                id,
            ) by {
                assert(ids@.to_set().contains(id));
            }
            assert forall|id: PlayerId| res@.contains_key(id) implies old(
                self,
            ).seats().contains_key(id) by {
                let j = choose|j: int| 0 <= j < ids.len() && ids@[j] == id;
                assert(ids@.to_set().contains(ids@[j]));
            }
            assert(res@.dom() =~= old(self).seats().dom());
        }
        res
    }
}

impl Room for InMemoryRoom {
    /// The notes that were handed to the channel of `id` for sending, in
    /// their order; none for a participant without a seat.
    closed spec fn told_to(&self, id: PlayerId) -> Seq<HolyMessage> {
        if self.players@.contains_key(id) {
            self.players@[id].connection.told()
        } else {
            Seq::empty()
        }
    }

    closed spec fn seats(&self) -> Map<PlayerId, Set<Power>> {
        Map::new(
            |id: PlayerId| self.players@.contains_key(id),
            |id: PlayerId| self.players@[id].powers@.to_set(),
        )
    }

    closed spec fn sound(&self) -> bool {
        forall|id: PlayerId| #[trigger]
            self.players@.contains_key(id) ==> self.players@[id].powers@.no_duplicates()
    }

    proof fn sound_is_finite(&self) {
        assert(self.seats().dom() =~= self.players@.dom());
        assert forall|id: PlayerId| #[trigger] self.seats().contains_key(id) implies self.seats()[id].finite() by {
            vstd::seq_lib::seq_to_set_is_finite(self.players@[id].powers@);
        }
    }

    fn numbers(&self) -> (r: Vec<PlayerId>) {
        proof {
            assert(self.seats().dom() =~= self.players@.dom());
        }
        keys_of(&self.players)
    }

    fn count(&self, power: &Power) -> (r: usize) {
        let found = self.by_power(power);
        proof {
            assert(found@.no_duplicates());
            found@.unique_seq_to_set();
        }
        found.len()
    }

    /// Gives the seat of `id` up and returns the powers held. Nobody is
    /// told.
    fn remove(&mut self, id: &PlayerId) -> (r: Vec<Power>)
        ensures
            final(self).told_to(*id) == Seq::<HolyMessage>::empty(),
    {
        match self.players.remove(id) {
            Some(p) => {
                proof {
                    assert(self.seats() =~= old(self).seats().remove(*id));
                }
                p.powers
            },
            None => {
                proof {
                    assert(self.seats() =~= old(self).seats().remove(*id));
                    assert(Seq::<Power>::empty().to_set() =~= Set::<Power>::empty());
                }
                Vec::new()
            },
        }
    }

    fn has(&self, id: &PlayerId, power: &Power) -> (r: bool) {
        match self.players.get(id) {
            Some(p) => holds(&p.powers, power),
            None => false,
        }
    }

    fn total(&self) -> (r: usize) {
        proof {
            assert(self.seats().dom() =~= self.players@.dom());
        }
        self.players.len()
    }

    fn kinks(&self, id: &PlayerId) -> (r: Vec<Power>) {
        match self.players.get(id) {
            Some(p) => copied(&p.powers),
            None => {
                proof {
                    assert(Seq::<Power>::empty().to_set() =~= Set::<Power>::empty());
                }
                Vec::new()
            },
        }
    }

    /// Takes `kinks` from `id`, and hands the note of what `id` still
    /// holds to its channel.
    fn drop_kinks<const N: usize>(&mut self, id: &PlayerId, kinks: [Power; N]) {
        match self.players.remove(id) {
            Some(mut p) => {
                p.powers = revoked(&p.powers, kinks.as_slice());
                let held = copied(&p.powers);
                let ghost note = HolyMessage::Assigned(held);
                p.connection.tell(HolyMessage::Assigned(held));
                self.players.insert(*id, p);
                proof {
                    assert(self.seats() =~= without_powers(
                        old(self).seats(),
                        *id,
                        kinks@.to_set(),
                    ));
                    let before = old(self).told_to(*id);
                    assert(self.told_to(*id) == before.push(note));
                    assert(before.push(note).drop_last() =~= before);
                    assert(before.push(note).last() == note);
                }
            },
            None => {
                assert(self.players@ =~= old(self).players@);
            },
        }
    }

    /// Takes from the channel of `id` the intents that have arrived, and
    /// keeps those that use a power that `id` holds; nothing for a
    /// participant without a seat.
    fn messages(&mut self, id: &PlayerId) -> (r: Vec<Pray>)
        ensures
            !old(self).seats().contains_key(*id) ==> r@ == Seq::<Pray>::empty(),
            exists|arrived: Seq<Pray>| r@ == kept(powers_of(old(self).seats(), *id), arrived),
    {
        match self.players.remove(id) {
            Some(mut user) => {
                let arrived = user.connection.drain();
                let ghost got = arrived@;
                let msgs = held_only(&user.powers, arrived);
                self.players.insert(*id, user);
                proof {
                    assert(self.seats() =~= old(self).seats());
                    let held = powers_of(old(self).seats(), *id);
                    assert(msgs@ == kept(held, got));
                    assert forall|i: int| 0 <= i < msgs@.len() implies held.contains(
                        (#[trigger] msgs@[i]).action,
                    ) by {
                        got.lemma_filter_pred(uses_held(held), i);
                    }
                }
                msgs
            },
            None => {
                proof {
                    assert(self.players@ =~= old(self).players@);
                    reveal(Seq::filter);
                    assert(kept(powers_of(old(self).seats(), *id), Seq::<Pray>::empty())
                        =~= Seq::<Pray>::empty());
                }
                Vec::new()
            },
        }
    }

    fn by_power(&self, power: &Power) -> (r: Vec<PlayerId>) {
        let ids = keys_of(&self.players);
        let mut found: Vec<PlayerId> = Vec::new();
        let mut i: usize = 0;
        while i < ids.len()
            invariant
                i <= ids.len(),
                ascending(ids@),
                ids@.to_set() == self.players@.dom(),
                ascending(found@),
                forall|k: int| 0 <= k < found@.len() ==> exists|j: int|
                    0 <= j < i && ids@[j] == #[trigger] found@[k],
                forall|id: PlayerId|
                    found@.contains(id) <==> (exists|j: int| 0 <= j < i && ids@[j] == id)
                        && self.players@[id].powers@.contains(*power),
            decreases ids.len() - i,
        {
            let id = ids[i];
            assert(ids@.to_set().contains(id));
            let has = match self.players.get(&id) {
                Some(p) => holds(&p.powers, power),
                None => false,
            };
            let ghost was = found@;
            if has {
                proof {
                    if found@.len() > 0 {
                        let last = found@[found@.len() - 1];
                        let j = choose|j: int| 0 <= j < i && ids@[j] == last;
                        assert(ids@[j] < ids@[i as int]);
                    }
                    found@.lemma_push_to_set_commute(id);
                }
                let ghost before = found@;
                found.push(id);
                proof {
                    assert forall|x: PlayerId| found@.contains(x) <==> before.contains(x) || x
                        == id by {
                        if found@.contains(x) {
                            let k = choose|k: int| 0 <= k < found@.len() && found@[k] == x;
                            if k < before.len() {
                                assert(before[k] == x);
                            }
                        }
                        if before.contains(x) {
                            let k = choose|k: int| 0 <= k < before.len() && before[k] == x;
                            assert(found@[k] == x);
                        }
                        assert(found@[before.len() as int] == id);
                    }
                }
            }
            proof {
                assert forall|x: PlayerId|
                    found@.contains(x) <==> (exists|j: int| 0 <= j < i + 1 && ids@[j] == x)
                        && self.players@[x].powers@.contains(*power) by {
                    if exists|j: int| 0 <= j < i && ids@[j] == x {
                        let j = choose|j: int| 0 <= j < i && ids@[j] == x;
                        assert(0 <= j < i + 1 && ids@[j] == x);
                    }
                    if exists|j: int| 0 <= j < i + 1 && ids@[j] == x {
                        let j = choose|j: int| 0 <= j < i + 1 && ids@[j] == x;
                        if j < i {
                            assert(0 <= j < i && ids@[j] == x);
                        } else {
                            assert(x == id);
                        }
                    }
                    if x == id {
                        assert(ids@[i as int] == x);
                    }
                    assert(was.contains(x) <==> (exists|j: int| 0 <= j < i && ids@[j] == x)
                        && self.players@[x].powers@.contains(*power));
                }
                assert forall|k: int| 0 <= k < found@.len() implies exists|j: int|
                    0 <= j < i + 1 && ids@[j] == #[trigger] found@[k] by {
                    if k < was.len() {
                        let j = choose|j: int| 0 <= j < i && ids@[j] == was[k];
                        assert(0 <= j < i + 1 && ids@[j] == found@[k]);
                    } else {
                        assert(ids@[i as int] == found@[k]);
                    }
                }
            }
            i = i + 1;
        }
        proof {
            assert forall|id: PlayerId| holders(self.seats(), *power).contains(id) implies found@.contains(
                id,
            ) by {
                assert(ids@.to_set().contains(id));
            }
            assert(found@.to_set() =~= holders(self.seats(), *power));
        }
        found
    }
}

/// The number of powers.
pub const POWERS: usize = 13;

/// The place of `power` among the powers, counted from 0.
pub open spec fn slot_of(power: Power) -> int {
    match power {
        Power::Guard => 0,
        Power::Paralyze => 1,
        Power::NightKill => 2,
        Power::Reveal => 3,
        Power::Heal => 4,
        Power::Enquery => 5,
        Power::HandGun => 6,
        Power::HandFakeGun => 7,
        Power::ShotOnKill => 8,
        Power::Disguise => 9,
        Power::DodgeCommando => 10,
        Power::Mafia => 11,
        Power::DayShield => 12,
    }
}

/// The place of `power` among the powers, counted from 0.
pub fn slot(power: &Power) -> (r: usize)
    ensures
        r == slot_of(*power),
        r < POWERS,
{
    match power {
        Power::Guard => 0,
        Power::Paralyze => 1,
        Power::NightKill => 2,
        Power::Reveal => 3,
        Power::Heal => 4,
        Power::Enquery => 5,
        Power::HandGun => 6,
        Power::HandFakeGun => 7,
        Power::ShotOnKill => 8,
        Power::Disguise => 9,
        Power::DodgeCommando => 10,
        Power::Mafia => 11,
        Power::DayShield => 12,
    }
}

/// What `from` asks for with `pray`, if the intent is well formed: an
/// active power; one participant and the power that it is said to hold for
/// Reveal, one participant for ShotOnKill, one or two for every other
/// power; and nobody names themself.
pub open spec fn intent_of(from: PlayerId, pray: Pray) -> Option<RawSpell> {
    let query = pray.query@;
    if !pray.action.is_active() || query.contains(from) {
        None
    } else {
        match (pray.action, pray.meta) {
            (Power::Reveal, Some(Meta::Has(claim))) => if query.len() == 1 {
                Some((from, pray.action, NightAct::Wicked(query[0], claim)))
            } else {
                None
            },
            (Power::Reveal, None) => None,
            (_, Some(_)) => None,
            (_, None) => if query.len() == 1 {
                Some((from, pray.action, NightAct::One(query[0])))
            } else if query.len() == 2 && pray.action != Power::ShotOnKill {
                Some((from, pray.action, NightAct::Two(query[0], query[1])))
            } else {
                None
            },
        }
    }
}

/// `intents` after `from` has submitted `pray`: a well-formed intent is
/// recorded under its power where that power has none yet, and nothing
/// else changes.
pub open spec fn recorded(intents: Map<Power, Seq<RawSpell>>, from: PlayerId, pray: Pray) -> Map<
    Power,
    Seq<RawSpell>,
> {
    match intent_of(from, pray) {
        Some(spell) => if intents.contains_key(pray.action) {
            intents
        } else {
            intents.insert(pray.action, seq![spell])
        },
        None => intents,
    }
}

/// `intents` after `from` has submitted each of `prays`, the first one
/// first.
pub open spec fn recorded_all(
    intents: Map<Power, Seq<RawSpell>>,
    from: PlayerId,
    prays: Seq<Pray>,
) -> Map<Power, Seq<RawSpell>>
    decreases prays.len(),
{
    if prays.len() == 0 {
        intents
    } else {
        recorded(recorded_all(intents, from, prays.drop_last()), from, prays.last())
    }
}

/// The intents of a night in which each participant of `said` has
/// submitted the intents beside it, the first participant first.
pub open spec fn gathered(said: Seq<(PlayerId, Vec<Pray>)>) -> Map<Power, Seq<RawSpell>>
    decreases said.len(),
{
    if said.len() == 0 {
        Map::empty()
    } else {
        recorded_all(gathered(said.drop_last()), said.last().0, said.last().1@)
    }
}

/// Whether `spells` is what a snapshot keeps under `power`: one intent, of
/// a participant who holds that power.
pub open spec fn heard(seats: Map<PlayerId, Set<Power>>, power: Power, spells: Seq<RawSpell>) -> bool {
    &&& spells.len() == 1
    &&& spells[0].1 == power
    &&& powers_of(seats, spells[0].0).contains(power)
}

/// Whether every intent in `intents` is one that `heard` accepts.
pub open spec fn all_heard(seats: Map<PlayerId, Set<Power>>, intents: Map<Power, Seq<RawSpell>>) -> bool {
    forall|p: Power| #[trigger] intents.contains_key(p) ==> heard(seats, p, intents[p])
}

/// Intents that their sender holds the power for are recorded as `heard`
/// accepts them.
pub proof fn lemma_recorded_all_heard(
    seats: Map<PlayerId, Set<Power>>,
    intents: Map<Power, Seq<RawSpell>>,
    from: PlayerId,
    prays: Seq<Pray>,
)
    requires
        all_heard(seats, intents),
        forall|j: int|
            0 <= j < prays.len() ==> powers_of(seats, from).contains((#[trigger] prays[j]).action),
    ensures
        all_heard(seats, recorded_all(intents, from, prays)),
    decreases prays.len(),
{
    if prays.len() > 0 {
        lemma_recorded_all_heard(seats, intents, from, prays.drop_last());
        let before = recorded_all(intents, from, prays.drop_last());
        let pray = prays.last();
        assert(powers_of(seats, from).contains(prays[prays.len() - 1].action));
        assert forall|p: Power| #[trigger]
            recorded(before, from, pray).contains_key(p) implies heard(
            seats,
            p,
            recorded(before, from, pray)[p],
        ) by {
            if p != pray.action {
                assert(before.contains_key(p));
            }
        }
    }
}

/// Whether each participant of `said` holds the power for each intent
/// beside it.
pub open spec fn all_held(seats: Map<PlayerId, Set<Power>>, said: Seq<(PlayerId, Vec<Pray>)>) -> bool {
    forall|i: int, j: int|
        0 <= i < said.len() && 0 <= j < said[i].1@.len() ==> powers_of(seats, said[i].0).contains(
            (#[trigger] said[i].1@[j]).action,
        )
}

/// A night of intents that their senders hold the power for keeps only
/// what `heard` accepts.
pub proof fn lemma_gathered_heard(seats: Map<PlayerId, Set<Power>>, said: Seq<(PlayerId, Vec<Pray>)>)
    requires
        all_held(seats, said),
    ensures
        all_heard(seats, gathered(said)),
    decreases said.len(),
{
    if said.len() > 0 {
        let rest = said.drop_last();
        assert(all_held(seats, rest)) by {
            assert forall|i: int, j: int|
                0 <= i < rest.len() && 0 <= j < rest[i].1@.len() implies powers_of(
                seats,
                rest[i].0,
            ).contains((#[trigger] rest[i].1@[j]).action) by {
                assert(rest[i] == said[i]);
                assert(powers_of(seats, said[i].0).contains(said[i].1@[j].action));
            }
        }
        lemma_gathered_heard(seats, rest);
        let last = said[said.len() - 1];
        assert forall|j: int| 0 <= j < last.1@.len() implies powers_of(seats, last.0).contains(
            (#[trigger] last.1@[j]).action,
        ) by {
            assert(powers_of(seats, said[said.len() - 1].0).contains(
                said[said.len() - 1].1@[j].action,
            ));
        }
        lemma_recorded_all_heard(seats, gathered(rest), last.0, last.1@);
    }
}

/// A snapshot of a night's intents that keeps one intent for each power:
/// the first that was submitted.
pub struct OneToOneSpells {
    slots: Vec<Option<RawSpell>>,
}

impl OneToOneSpells {
    /// A snapshot without an intent.
    pub fn new() -> (r: Self)
        ensures
            r.sound(),
            r.intents() == Map::<Power, Seq<RawSpell>>::empty(),
    {
        let mut slots: Vec<Option<RawSpell>> = Vec::new();
        let mut i: usize = 0;
        while i < POWERS
            invariant
                i <= POWERS,
                slots@.len() == i,
                forall|j: int| 0 <= j < i ==> slots@[j] is None,
            decreases POWERS - i,
        {
            slots.push(None);
            i = i + 1;
        }
        let r = Self { slots };
        assert(r.intents() =~= Map::<Power, Seq<RawSpell>>::empty());
        r
    }

    /// The intent of `pray`, as `intent_of` says.
    pub fn read(from: PlayerId, pray: &Pray) -> (r: Option<RawSpell>)
        ensures
            r == intent_of(from, *pray),
    {
        if !pray.action.night() {
            return None;
        }
        let mut i: usize = 0;
        while i < pray.query.len()
            invariant
                i <= pray.query.len(),
                forall|j: int| 0 <= j < i ==> pray.query@[j] != from,
            decreases pray.query.len() - i,
        {
            if pray.query[i] == from {
                return None;
            }
            i = i + 1;
        }
        let n = pray.query.len();
        match (pray.action, pray.meta) {
            (Power::Reveal, Some(Meta::Has(claim))) => {
                if n == 1 {
                    Some((from, pray.action, NightAct::Wicked(pray.query[0], claim)))
                } else {
                    None
                }
            },
            (Power::Reveal, None) => None,
            (_, Some(_)) => None,
            (_, None) => {
                if n == 1 {
                    Some((from, pray.action, NightAct::One(pray.query[0])))
                } else if n == 2 && pray.action != Power::ShotOnKill {
                    Some((from, pray.action, NightAct::Two(pray.query[0], pray.query[1])))
                } else {
                    None
                }
            },
        }
    }

    /// The snapshot of a night in which each participant of `said` has
    /// submitted the intents beside it, the first participant first.
    pub fn gather(said: &Vec<(PlayerId, Vec<Pray>)>) -> (r: Self)
        ensures
            r.sound(),
            r.intents() == gathered(said@),
    {
        let mut spells = OneToOneSpells::new();
        let mut i: usize = 0;
        while i < said.len()
            invariant
                i <= said.len(),
                spells.sound(),
                spells.intents() == gathered(said@.take(i as int)),
            decreases said.len() - i,
        {
            let ghost before = spells.intents();
            let mut j: usize = 0;
            while j < said[i].1.len()
                invariant
                    i < said.len(),
                    j <= said[i as int].1@.len(),
                    spells.sound(),
                    spells.intents() == recorded_all(
                        before,
                        said[i as int].0,
                        said[i as int].1@.take(j as int),
                    ),
                decreases said[i as int].1@.len() - j,
            {
                proof {
                    let prays = said[i as int].1@;
                    assert(prays.take(j + 1).drop_last() =~= prays.take(j as int));
                    assert(prays.take(j + 1).last() == prays[j as int]);
                }
                spells.submit(said[i].0, &said[i].1[j]);
                j = j + 1;
            }
            proof {
                let prays = said[i as int].1@;
                assert(prays.take(prays.len() as int) =~= prays);
                assert(said@.take(i + 1).drop_last() =~= said@.take(i as int));
                assert(said@.take(i + 1).last() == said[i as int]);
            }
            i = i + 1;
        }
        assert(said@.take(said@.len() as int) =~= said@);
        spells
    }

    /// Records the intent of `pray`, where it is well formed and the first
    /// for its power. Says whether it was recorded.
    pub fn submit(&mut self, from: PlayerId, pray: &Pray) -> (r: bool)
        requires
            old(self).sound(),
        ensures
            final(self).sound(),
            r == (intent_of(from, *pray) is Some && !old(self).intents().contains_key(pray.action)),
            final(self).intents() == if r {
                old(self).intents().insert(pray.action, seq![intent_of(from, *pray)->0])
            } else {
                old(self).intents()
            },
            final(self).intents() == recorded(old(self).intents(), from, *pray),
    {
        match Self::read(from, pray) {
            Some(spell) => {
                let at = slot(&pray.action);
                if self.slots[at].is_some() {
                    return false;
                }
                self.slots.set(at, Some(spell));
                proof {
                    assert forall|p: Power| p != pray.action implies slot_of(p) != at by {}
                    assert(self.intents() =~= old(self).intents().insert(
                        pray.action,
                        seq![spell],
                    ));
                }
                true
            },
            None => false,
        }
    }
}

impl Spells for OneToOneSpells {
    closed spec fn intents(&self) -> Map<Power, Seq<RawSpell>> {
        Map::new(
            |p: Power| self.slots@[slot_of(p)] is Some,
            |p: Power| seq![self.slots@[slot_of(p)]->0],
        )
    }

    closed spec fn sound(&self) -> bool {
        &&& self.slots@.len() == POWERS
        &&& forall|p: Power|
            (#[trigger] self.slots@[slot_of(p)]) matches Some(spell) ==> spell.1 == p
    }

    proof fn sound_is_tagged(&self) {
        assert forall|p: Power, i: int|
            self.intents().contains_key(p) && 0 <= i < self.intents()[p].len() implies (
        #[trigger] self.intents()[p][i]).1 == p by {
            assert(self.slots@[slot_of(p)] is Some);
        }
    }

    fn get(&self, power: &Power) -> (r: Option<&NightAct>) {
        match &self.slots[slot(power)] {
            Some(spell) => Some(&spell.2),
            None => None,
        }
    }

    fn raw(&self, power: &Power) -> (r: Option<&RawSpell>) {
        match &self.slots[slot(power)] {
            Some(spell) => Some(spell),
            None => None,
        }
    }

    fn raw_vec(&self, power: &Power) -> (r: Option<Vec<&RawSpell>>) {
        match &self.slots[slot(power)] {
            Some(spell) => {
                let mut all: Vec<&RawSpell> = Vec::new();
                all.push(spell);
                Some(all)
            },
            None => None,
        }
    }

    fn one(&self, power: &Power) -> (r: Option<(PlayerId, Power, PlayerId)>) {
        match &self.slots[slot(power)] {
            Some((from, tag, NightAct::One(on))) => Some((*from, *tag, *on)),
            _ => None,
        }
    }

    fn two(&self, power: &Power) -> (r: Option<(PlayerId, Power, (PlayerId, PlayerId))>) {
        match &self.slots[slot(power)] {
            Some((from, tag, NightAct::Two(a, b))) => Some((*from, *tag, (*a, *b))),
            _ => None,
        }
    }

    fn all(&self, power: &Power) -> (r: Option<(PlayerId, Power, Vec<PlayerId>)>) {
        match &self.slots[slot(power)] {
            Some((from, tag, act)) => {
                let mut on: Vec<PlayerId> = Vec::new();
                match act {
                    NightAct::One(a) => {
                        on.push(*a);
                    },
                    NightAct::Two(a, b) => {
                        on.push(*a);
                        on.push(*b);
                    },
                    NightAct::Wicked(a, _) => {
                        on.push(*a);
                    },
                }
                assert(on@ =~= act.targets());
                Some((*from, *tag, on))
            },
            None => None,
        }
    }

    fn get_kv(&self, power: &Power) -> (r: Option<(&Power, &NightAct)>) {
        match &self.slots[slot(power)] {
            Some(spell) => Some((&spell.1, &spell.2)),
            None => None,
        }
    }

    fn expect1(&self, power: &Power) -> (r: Option<&PlayerId>) {
        match &self.slots[slot(power)] {
            Some((_, _, NightAct::One(on))) => Some(on),
            _ => None,
        }
    }

    fn expect2(&self, power: &Power) -> (r: Option<(&PlayerId, &PlayerId)>) {
        match &self.slots[slot(power)] {
            Some((_, _, NightAct::Two(a, b))) => Some((a, b)),
            _ => None,
        }
    }

    fn stop(&mut self, power: &Power) -> (r: bool) {
        let at = slot(power);
        let was = self.slots[at].is_some();
        self.slots.set(at, None);
        proof {
            assert forall|p: Power| p != *power implies slot_of(p) != at by {}
            assert(self.intents() =~= old(self).intents().remove(*power));
        }
        was
    }
}

} // verus!
