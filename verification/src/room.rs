use vstd::prelude::*;
use crate::scenario::{HolyMessage, Power, Pray};
use crate::waiting::PlayerId;

verus! {

/// What a participant asks for with one active power in one night.
#[derive(Clone, Copy, Debug, PartialEq, Eq, Structural)]
pub enum NightAct {
    One(PlayerId),
    Two(PlayerId, PlayerId),
    Wicked(PlayerId, Power),
}

impl NightAct {
    /// The participants that the intent names, in the order given.
    pub open spec fn targets(self) -> Seq<PlayerId> {
        match self {
            NightAct::One(a) => seq![a],
            NightAct::Two(a, b) => seq![a, b],
            NightAct::Wicked(a, _) => seq![a],
        }
    }
}

/// An intent as submitted: who, with which power, what.
pub type RawSpell = (PlayerId, Power, NightAct);

/// The powers that `id` holds in `seats`; none for an absent participant.
pub open spec fn powers_of(seats: Map<PlayerId, Set<Power>>, id: PlayerId) -> Set<Power> {
    if seats.contains_key(id) {
        seats[id]
    } else {
        Set::empty()
    }
}

/// The seated participants that hold `power`.
pub open spec fn holders(seats: Map<PlayerId, Set<Power>>, power: Power) -> Set<PlayerId> {
    seats.dom().filter(|id: PlayerId| seats[id].contains(power))
}

/// Strictly ascending, hence without repetition.
pub open spec fn ascending(s: Seq<PlayerId>) -> bool {
    forall|i: int, j: int| 0 <= i < j < s.len() ==> s[i] < s[j]
}

/// `seats` after `id` has lost every power in `gone`; an absent participant
/// changes nothing.
pub open spec fn without_powers(
    seats: Map<PlayerId, Set<Power>>,
    id: PlayerId,
    gone: Set<Power>,
) -> Map<PlayerId, Set<Power>> {
    if seats.contains_key(id) {
        seats.insert(id, seats[id].difference(gone))
    } else {
        seats
    }
}

/// `seats` after `id` has been granted every power in `granted`; an absent
/// participant changes nothing.
pub open spec fn with_powers(
    seats: Map<PlayerId, Set<Power>>,
    id: PlayerId,
    granted: Set<Power>,
) -> Map<PlayerId, Set<Power>> {
    if seats.contains_key(id) {
        seats.insert(id, seats[id].union(granted))
    } else {
        seats
    }
}

/// A power that has been revoked is no longer held, whether or not it was
/// held before.
pub proof fn law_revoked_is_not_held(
    seats: Map<PlayerId, Set<Power>>,
    id: PlayerId,
    gone: Set<Power>,
    power: Power,
)
    requires
        gone.contains(power),
    ensures
        !powers_of(without_powers(seats, id, gone), id).contains(power),
{
}

/// Revoking leaves a participant with the powers held before that were not
/// revoked, and leaves every other participant alone.
pub proof fn law_revoking_keeps_the_rest(
    seats: Map<PlayerId, Set<Power>>,
    id: PlayerId,
    gone: Set<Power>,
    other: PlayerId,
)
    ensures
        powers_of(without_powers(seats, id, gone), id) == powers_of(seats, id).difference(gone),
        other != id ==> powers_of(without_powers(seats, id, gone), other) == powers_of(
            seats,
            other,
        ),
        without_powers(seats, id, gone).dom() == seats.dom(),
{
    assert(powers_of(without_powers(seats, id, gone), id) =~= powers_of(seats, id).difference(
        gone,
    ));
    assert(without_powers(seats, id, gone).dom() =~= seats.dom());
}

/// A seated participant holds after a grant what it held before and what
/// was granted; granting and then revoking some of the granted powers
/// leaves the others.
pub proof fn law_grant_round_trip(
    seats: Map<PlayerId, Set<Power>>,
    id: PlayerId,
    granted: Set<Power>,
    gone: Set<Power>,
)
    requires
        seats.contains_key(id),
    ensures
        powers_of(with_powers(seats, id, granted), id) == seats[id].union(granted),
        powers_of(without_powers(with_powers(seats, id, granted), id, gone), id)
            == seats[id].union(granted).difference(gone),
{
    assert(powers_of(without_powers(with_powers(seats, id, granted), id, gone), id)
        =~= seats[id].union(granted).difference(gone));
}

/// Whether `after` is `before` and one note more, which tells that
/// `powers` are held.
pub open spec fn told_powers(
    before: Seq<HolyMessage>,
    after: Seq<HolyMessage>,
    powers: Set<Power>,
) -> bool {
    &&& after.len() == before.len() + 1
    &&& after.drop_last() == before
    &&& match after.last() {
        HolyMessage::Assigned(held) => held@.to_set() == powers,
        _ => false,
    }
}

/// Whether a participant who was told `before` has been told, by `after`,
/// that `powers` are held, if seated, and nothing more if not.
pub open spec fn told_if_seated(
    seated: bool,
    before: Seq<HolyMessage>,
    after: Seq<HolyMessage>,
    powers: Set<Power>,
) -> bool {
    if seated {
        told_powers(before, after, powers)
    } else {
        after == before
    }
}

/// Whether everybody but `id` has been told in `after` what they had been
/// told in `before`.
pub open spec fn others_told_as_before<R: Room>(before: R, after: R, id: PlayerId) -> bool {
    forall|other: PlayerId| other != id ==> after.told_to(other) == before.told_to(other)
}

/// Whether, from `before` to `after`, `id` has been told the powers that
/// it holds in `after`, if it had a seat, and nobody anything else.
pub open spec fn told_its_powers<R: Room>(before: R, after: R, id: PlayerId) -> bool {
    &&& others_told_as_before(before, after, id)
    &&& told_if_seated(
        before.seats().contains_key(id),
        before.told_to(id),
        after.told_to(id),
        powers_of(after.seats(), id),
    )
}

/// Whether nobody has been told anything from `before` to `after`.
pub open spec fn told_nothing<R: Room>(before: R, after: R) -> bool {
    forall|id: PlayerId| after.told_to(id) == before.told_to(id)
}

/// Whether the last note of `told` tells that `powers` are held.
pub open spec fn knows(told: Seq<HolyMessage>, powers: Set<Power>) -> bool {
    told.len() > 0 && match told.last() {
        HolyMessage::Assigned(held) => held@.to_set() == powers,
        _ => false,
    }
}

/// Whether every seated participant has been told, last of all, the powers
/// that it holds.
pub open spec fn informed<R: Room>(room: R) -> bool {
    forall|id: PlayerId| #[trigger]
        room.seats().contains_key(id) ==> knows(room.told_to(id), room.seats()[id])
}

/// Where everybody knows what they hold and one participant is then told
/// what it holds, while nobody else's powers change and nobody takes a
/// seat, everybody still knows.
pub proof fn law_told_stay_informed<R: Room>(before: R, after: R, id: PlayerId)
    requires
        informed(before),
        told_its_powers(before, after, id),
        after.seats().dom().subset_of(before.seats().dom()),
        forall|other: PlayerId|
            other != id && #[trigger] after.seats().contains_key(other) ==> after.seats()[other]
                == before.seats()[other],
    ensures
        informed(after),
{
    assert forall|who: PlayerId| #[trigger] after.seats().contains_key(who) implies knows(
        after.told_to(who),
        after.seats()[who],
    ) by {
        assert(before.seats().contains_key(who));
        if who != id {
            assert(after.told_to(who) == before.told_to(who));
        }
    }
}

/// Where everybody knows what they hold and one participant leaves, while
/// nobody else is told anything, everybody who is left still knows.
pub proof fn law_left_stay_informed<R: Room>(before: R, after: R, id: PlayerId)
    requires
        informed(before),
        others_told_as_before(before, after, id),
        after.seats() == before.seats().remove(id),
    ensures
        informed(after),
{
    assert forall|who: PlayerId| #[trigger] after.seats().contains_key(who) implies knows(
        after.told_to(who),
        after.seats()[who],
    ) by {
        assert(before.seats().contains_key(who) && who != id);
        assert(after.told_to(who) == before.told_to(who));
    }
}

/// The capability store: which seated participant holds which powers, and
/// what each has been told of it.
pub trait Room {
    /// The store as a map from each seated participant to the powers held.
    spec fn seats(&self) -> Map<PlayerId, Set<Power>>;

    /// The notes that the store has handed over for `id`, in their order.
    spec fn told_to(&self, id: PlayerId) -> Seq<HolyMessage>;

    /// What the store keeps true of itself between calls.
    spec fn sound(&self) -> bool;

    /// A sound store seats finitely many participants, each with finitely
    /// many powers.
    proof fn sound_is_finite(&self)
        requires
            self.sound(),
        ensures
            self.seats().dom().finite(),
            forall|id: PlayerId| #[trigger]
                self.seats().contains_key(id) ==> self.seats()[id].finite(),
    ;

    fn numbers(&self) -> (r: Vec<PlayerId>)
        requires
            self.sound(),
        ensures
            ascending(r@),
            r@.to_set() == self.seats().dom(),
    ;

    fn has(&self, id: &PlayerId, power: &Power) -> (r: bool)
        requires
            self.sound(),
        ensures
            r == powers_of(self.seats(), *id).contains(*power),
    ;

    /// Takes `kinks` from `id`, and tells `id` what it still holds.
    fn drop_kinks<const N: usize>(&mut self, id: &PlayerId, kinks: [Power; N])
        requires
            old(self).sound(),
        ensures
            final(self).sound(),
            final(self).seats() == without_powers(old(self).seats(), *id, kinks@.to_set()),
            forall|other: PlayerId|
                other != *id ==> final(self).told_to(other) == old(self).told_to(other),
            told_if_seated(
                old(self).seats().contains_key(*id),
                old(self).told_to(*id),
                final(self).told_to(*id),
                powers_of(final(self).seats(), *id),
            ),
    ;

    fn kinks(&self, id: &PlayerId) -> (r: Vec<Power>)
        requires
            self.sound(),
        ensures
            r@.no_duplicates(),
            r@.to_set() == powers_of(self.seats(), *id),
    ;

    fn total(&self) -> (r: usize)
        requires
            self.sound(),
        ensures
            r == self.seats().dom().len(),
    ;

    fn count(&self, power: &Power) -> (r: usize)
        requires
            self.sound(),
        ensures
            r == holders(self.seats(), *power).len(),
    ;

    fn remove(&mut self, id: &PlayerId) -> (r: Vec<Power>)
        requires
            old(self).sound(),
        ensures
            final(self).sound(),
            final(self).seats() == old(self).seats().remove(*id),
            r@.no_duplicates(),
            r@.to_set() == powers_of(old(self).seats(), *id),
            forall|other: PlayerId|
                other != *id ==> final(self).told_to(other) == old(self).told_to(other),
    ;

    fn messages(&mut self, id: &PlayerId) -> (r: Vec<Pray>)
        requires
            old(self).sound(),
        ensures
            final(self).sound(),
            final(self).seats() == old(self).seats(),
            forall|i: int| 0 <= i < r@.len() ==> powers_of(old(self).seats(), *id).contains(
                (#[trigger] r@[i]).action,
            ),
            forall|other: PlayerId| final(self).told_to(other) == old(self).told_to(other),
    ;

    fn by_power(&self, power: &Power) -> (r: Vec<PlayerId>)
        requires
            self.sound(),
        ensures
            ascending(r@),
            r@.to_set() == holders(self.seats(), *power),
    ;
}

/// The first intent recorded for `power`, if there is one.
pub open spec fn first_intent(intents: Map<Power, Seq<RawSpell>>, power: Power) -> Option<
    RawSpell,
> {
    if intents.contains_key(power) && intents[power].len() > 0 {
        Some(intents[power][0])
    } else {
        None
    }
}

/// The single target of the first intent for `power`, with its sender.
pub open spec fn first_one(intents: Map<Power, Seq<RawSpell>>, power: Power) -> Option<
    (PlayerId, Power, PlayerId),
> {
    match first_intent(intents, power) {
        Some((from, tag, NightAct::One(on))) => Some((from, tag, on)),
        _ => None,
    }
}

/// The two targets of the first intent for `power`, with its sender.
pub open spec fn first_two(intents: Map<Power, Seq<RawSpell>>, power: Power) -> Option<
    (PlayerId, Power, (PlayerId, PlayerId)),
> {
    match first_intent(intents, power) {
        Some((from, tag, NightAct::Two(a, b))) => Some((from, tag, (a, b))),
        _ => None,
    }
}

/// Every key has an intent, and every intent is filed under the power that
/// it names.
pub open spec fn tagged(intents: Map<Power, Seq<RawSpell>>) -> bool {
    &&& forall|p: Power| #[trigger] intents.contains_key(p) ==> intents[p].len() > 0
    &&& forall|p: Power, i: int|
        intents.contains_key(p) && 0 <= i < intents[p].len() ==> (#[trigger] intents[p][i]).1 == p
}

/// The intents of one night, by the power that each one uses.
pub trait Spells {
    /// The intents recorded for each power, in the order of their arrival.
    /// A power without an intent is no key.
    spec fn intents(&self) -> Map<Power, Seq<RawSpell>>;

    /// What the snapshot keeps true of itself between calls.
    spec fn sound(&self) -> bool;

    /// In a sound snapshot every key has an intent, and every intent is
    /// filed under the power that it names.
    proof fn sound_is_tagged(&self)
        requires
            self.sound(),
        ensures
            tagged(self.intents()),
    ;

    fn get(&self, power: &Power) -> (r: Option<&NightAct>)
        requires
            self.sound(),
        ensures
            match first_intent(self.intents(), *power) {
                Some(spell) => r == Some(&spell.2),
                None => r is None,
            },
    ;

    fn raw(&self, power: &Power) -> (r: Option<&RawSpell>)
        requires
            self.sound(),
        ensures
            match first_intent(self.intents(), *power) {
                Some(spell) => r == Some(&spell),
                None => r is None,
            },
    ;

    fn raw_vec(&self, power: &Power) -> (r: Option<Vec<&RawSpell>>)
        requires
            self.sound(),
        ensures
            match r {
                Some(v) => self.intents().contains_key(*power) && v@.len()
                    == self.intents()[*power].len() && forall|i: int|
                    0 <= i < v@.len() ==> *(#[trigger] v@[i]) == self.intents()[*power][i],
                None => !self.intents().contains_key(*power),
            },
    ;

    fn one(&self, power: &Power) -> (r: Option<(PlayerId, Power, PlayerId)>)
        requires
            self.sound(),
        ensures
            r == first_one(self.intents(), *power),
    ;

    fn two(&self, power: &Power) -> (r: Option<(PlayerId, Power, (PlayerId, PlayerId))>)
        requires
            self.sound(),
        ensures
            r == first_two(self.intents(), *power),
    ;

    fn all(&self, power: &Power) -> (r: Option<(PlayerId, Power, Vec<PlayerId>)>)
        requires
            self.sound(),
        ensures
            match (first_intent(self.intents(), *power), r) {
                (Some((from, tag, act)), Some((who, with, on))) => who == from && with == tag
                    && on@ == act.targets(),
                (None, None) => true,
                _ => false,
            },
    ;

    fn get_kv(&self, power: &Power) -> (r: Option<(&Power, &NightAct)>)
        requires
            self.sound(),
        ensures
            match first_intent(self.intents(), *power) {
                Some(spell) => r == Some((&spell.1, &spell.2)),
                None => r is None,
            },
    ;

    fn expect1(&self, power: &Power) -> (r: Option<&PlayerId>)
        requires
            self.sound(),
        ensures
            match first_one(self.intents(), *power) {
                Some(hit) => r == Some(&hit.2),
                None => r is None,
            },
    ;

    fn expect2(&self, power: &Power) -> (r: Option<(&PlayerId, &PlayerId)>)
        requires
            self.sound(),
        ensures
            match first_two(self.intents(), *power) {
                Some((_, _, (a, b))) => r == Some((&a, &b)),
                None => r is None,
            },
    ;

    fn stop(&mut self, power: &Power) -> (r: bool)
        requires
            old(self).sound(),
        ensures
            final(self).sound(),
            final(self).intents() == old(self).intents().remove(*power),
            r == old(self).intents().contains_key(*power),
    ;
}

} // verus!
