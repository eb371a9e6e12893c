use vstd::prelude::*;
use std::collections::BTreeSet;
use btreemultimap::BTreeMultiMap;
use crate::waiting::PlayerId;

verus! {

/// Text of a failure that is handed back to the caller.
pub type Error = String;

/// What a day-phase shot did.
#[derive(Clone, Copy, Debug, PartialEq, Eq, Structural)]
pub enum ShootingResult {
    Killed(PlayerId),
    EmptyGun(PlayerId),
    NotAllowed,
}

/// A capability tag. The first nine are active (one intent a night), the
/// last four passive.
#[derive(Clone, Copy, Debug, PartialEq, Eq, Structural, PartialOrd, Ord, Hash)]
pub enum Power {
    Guard,
    Paralyze,
    NightKill,
    Reveal,
    Heal,
    Enquery,
    HandGun,
    HandFakeGun,
    ShotOnKill,
    Disguise,
    DodgeCommando,
    Mafia,
    DayShield,
}

/// The active powers, in the order in which `Power::active` lists them.
pub open spec fn active_powers() -> Seq<Power> {
    seq![
        Power::NightKill,
        Power::Reveal,
        Power::Paralyze,
        Power::Heal,
        Power::Enquery,
        Power::Guard,
        Power::HandGun,
        Power::HandFakeGun,
        Power::ShotOnKill,
    ]
}

/// The passive powers, in the order in which `Power::passive` lists them.
pub open spec fn passive_powers() -> Seq<Power> {
    seq![Power::Disguise, Power::DodgeCommando, Power::Mafia, Power::DayShield]
}

impl Power {
    /// Whether the power is used by an intent at night.
    pub open spec fn is_active(self) -> bool {
        match self {
            Power::Disguise | Power::DodgeCommando | Power::Mafia | Power::DayShield => false,
            _ => true,
        }
    }

    pub fn night(&self) -> (r: bool)
        ensures
            r == self.is_active(),
            r == active_powers().contains(*self),
            r == !passive_powers().contains(*self),
    {
        proof {
            lemma_power_classes(*self);
        }
        match self {
            Power::Disguise | Power::DodgeCommando | Power::Mafia | Power::DayShield => false,
            _ => true,
        }
    }

    pub fn active(&self) -> (r: [Power; 9])
        ensures
            r@ == active_powers(),
    {
        let r = [
            Power::NightKill,
            Power::Reveal,
            Power::Paralyze,
            Power::Heal,
            Power::Enquery,
            Power::Guard,
            Power::HandGun,
            Power::HandFakeGun,
            Power::ShotOnKill,
        ];
        assert(r@ =~= active_powers());
        r
    }

    pub fn passive(&self) -> (r: [Power; 4])
        ensures
            r@ == passive_powers(),
    {
        let r = [Power::Disguise, Power::DodgeCommando, Power::Mafia, Power::DayShield];
        assert(r@ =~= passive_powers());
        r
    }
}

/// Every power is in exactly one of the two classes.
pub proof fn lemma_power_classes(p: Power)
    ensures
        p.is_active() == active_powers().contains(p),
        p.is_active() == !passive_powers().contains(p),
{
    let a = active_powers();
    let q = passive_powers();
    assert(a[0] == Power::NightKill && a[1] == Power::Reveal && a[2] == Power::Paralyze);
    assert(a[3] == Power::Heal && a[4] == Power::Enquery && a[5] == Power::Guard);
    assert(a[6] == Power::HandGun && a[7] == Power::HandFakeGun && a[8] == Power::ShotOnKill);
    assert(q[0] == Power::Disguise && q[1] == Power::DodgeCommando);
    assert(q[2] == Power::Mafia && q[3] == Power::DayShield);
}

/// A private note from the engine to one participant.
#[derive(Clone, Debug)]
pub enum HolyMessage {
    Assigned(Vec<Power>),
    YouHaveGun,
    YouAreBoss,
    IsMafia(PlayerId, bool),
}

/// What a participant adds to an intent.
#[derive(Clone, Copy, Debug, PartialEq, Eq, Structural)]
pub enum Meta {
    Has(Power),
}

/// An intent as it arrives from a participant.
#[derive(Clone, Debug)]
pub struct Pray {
    pub action: Power,
    pub query: Vec<PlayerId>,
    pub meta: Option<Meta>,
}

/// The private notes of one night, by the participant they are for.
pub type Messages = BTreeMultiMap<PlayerId, HolyMessage>;

/// The multimap of the `btreemultimap` crate, carried as an opaque value.
#[verifier::external_type_specification]
#[verifier::external_body]
#[verifier::reject_recursive_types(K)]
#[verifier::reject_recursive_types(V)]
pub struct ExBTreeMultiMap<K, V>(BTreeMultiMap<K, V>);

/// What a multimap of notes holds: for each participant with a note, the
/// notes in the order in which they were inserted.
pub uninterp spec fn delivered(m: Messages) -> Map<PlayerId, Seq<HolyMessage>>;

/// The notes for `to` in `notes`; none where `to` is no key.
pub open spec fn notes_for(notes: Map<PlayerId, Seq<HolyMessage>>, to: PlayerId) -> Seq<
    HolyMessage,
> {
    if notes.contains_key(to) {
        notes[to]
    } else {
        Seq::empty()
    }
}

/// No note for anybody.
pub open spec fn no_notes() -> Map<PlayerId, Seq<HolyMessage>> {
    Map::empty()
}

/// `notes` with `note` added behind the notes for `to`.
pub open spec fn with_note(
    notes: Map<PlayerId, Seq<HolyMessage>>,
    to: PlayerId,
    note: HolyMessage,
) -> Map<PlayerId, Seq<HolyMessage>> {
    notes.insert(to, notes_for(notes, to).push(note))
}

/// `BTreeMultiMap::new`, which makes a multimap without a key.
#[verifier::external_body]
pub(crate) fn no_messages() -> (m: Messages)
    ensures
        delivered(m) == no_notes(),
{
    BTreeMultiMap::new()
}

/// `BTreeMultiMap::insert`, which appends the value to the vector under
/// the key and first makes that vector where the key is new; no other key
/// is touched.
#[verifier::external_body]
pub(crate) fn add_message(m: &mut Messages, to: PlayerId, note: HolyMessage)
    ensures
        delivered(*final(m)) == with_note(delivered(*old(m)), to, note),
{
    m.insert(to, note);
}

/// What a night has brought about.
pub trait News {
    /// The private notes, by the participant they are for.
    spec fn notes(&self) -> Map<PlayerId, Seq<HolyMessage>>;

    /// Those who did not survive the night.
    spec fn out(&self) -> Set<PlayerId>;

    fn messages(&self) -> (r: &Messages)
        ensures
            delivered(*r) == self.notes(),
    ;

    fn kicked_out(&self) -> (r: &BTreeSet<PlayerId>)
        ensures
            r@ == self.out(),
    ;
}

/// How a game stands.
#[derive(Clone, Copy, Debug, PartialEq, Eq, Structural, PartialOrd, Ord)]
pub enum State {
    MafiaWon,
    CityWon,
    Undecided,
}

/// The phase of the day, or the end of the game.
#[derive(Clone, Copy, Debug, PartialEq, Eq, Structural, PartialOrd, Ord)]
pub enum CityState {
    Debate,
    Defend,
    Hang,
    Night,
    Done(State),
}

/// One public event of the game.
#[derive(Clone, Copy, Debug, PartialEq, Eq, Structural)]
pub enum Declaration {
    Out(PlayerId),
    StateChanged(CityState),
    FakeGun(PlayerId),
}

/// The number of a day, counted from 0.
pub type Day = usize;

/// The second stage of a day's vote: which defendant is executed.
pub trait DeathBallot {
    /// The defendants.
    spec fn defendants(&self) -> Set<PlayerId>;

    /// The seat count that the quorum is taken from.
    spec fn seats(&self) -> nat;

    /// Who has voted to hang each defendant.
    spec fn hangers(&self) -> Map<PlayerId, Set<PlayerId>>;

    /// What the ballot keeps true of itself between calls.
    spec fn sound(&self) -> bool;

    /// A sound ballot has at least one defendant, finitely many of them,
    /// and a set of votes for each defendant and for nobody else.
    proof fn sound_covers(&self)
        requires
            self.sound(),
        ensures
            self.defendants().finite(),
            self.defendants().len() > 0,
            self.hangers().dom() == self.defendants(),
    ;

    fn list(&self) -> (r: &BTreeSet<PlayerId>)
        requires
            self.sound(),
        ensures
            r@ == self.defendants(),
    ;

    fn hang(&mut self, from: PlayerId, on: PlayerId) -> (r: bool)
        requires
            old(self).sound(),
        ensures
            final(self).sound(),
            final(self).defendants() == old(self).defendants(),
            final(self).seats() == old(self).seats(),
            r == (may_hang(old(self).defendants(), from, on) && !old(self).hangers()[on].contains(
                from,
            )),
            final(self).hangers() == if may_hang(old(self).defendants(), from, on) {
                old(self).hangers().insert(on, old(self).hangers()[on].insert(from))
            } else {
                old(self).hangers()
            },
    ;

    fn dead(&self) -> (r: Option<PlayerId>)
        requires
            self.sound(),
        ensures
            match r {
                Some(id) => is_hanged(self.hangers(), self.seats(), id),
                None => forall|id: PlayerId| !is_hanged(self.hangers(), self.seats(), id),
            },
    ;
}

/// Whether `from` may cast a vote to hang `on`: never on itself, only on a
/// defendant, and not as one of exactly two defendants.
pub open spec fn may_hang(defendants: Set<PlayerId>, from: PlayerId, on: PlayerId) -> bool {
    &&& from != on
    &&& defendants.contains(on)
    &&& !(defendants.len() == 2 && defendants.contains(from))
}

/// Of exactly two defendants neither may vote, and nobody may ever vote on
/// themself or on one who is no defendant.
pub proof fn law_who_may_not_hang(defendants: Set<PlayerId>, from: PlayerId, on: PlayerId)
    ensures
        defendants.len() == 2 && defendants.contains(from) ==> !may_hang(defendants, from, on),
        from == on ==> !may_hang(defendants, from, on),
        !defendants.contains(on) ==> !may_hang(defendants, from, on),
{
}

/// Whether the votes against `id` reach half of the seats.
pub open spec fn has_quorum(votes: Map<PlayerId, Set<PlayerId>>, seats: nat, id: PlayerId) -> bool {
    votes.contains_key(id) && votes[id].len() >= seats / 2
}

/// Whether `id` is the one to hang: it has the quorum, and among those who
/// have it nobody has more votes, nor as many under a higher number.
pub open spec fn is_hanged(votes: Map<PlayerId, Set<PlayerId>>, seats: nat, id: PlayerId) -> bool {
    &&& has_quorum(votes, seats, id)
    &&& forall|other: PlayerId| #[trigger]
        has_quorum(votes, seats, other) ==> votes[other].len() < votes[id].len() || (
        votes[other].len() == votes[id].len() && other <= id)
}

/// The first stage of a day's vote: who has to defend themself.
pub trait Defendence {
    type Ballot: DeathBallot;

    /// Who has nominated each nominee.
    spec fn nominations(&self) -> Map<PlayerId, Set<PlayerId>>;

    /// The seat count that the quorum is taken from.
    spec fn seats(&self) -> nat;

    /// What the ballots keep true of themselves between calls.
    spec fn sound(&self) -> bool;

    fn nominate(&mut self, from: PlayerId, on: PlayerId) -> (r: bool)
        requires
            old(self).sound(),
        ensures
            final(self).sound(),
            final(self).seats() == old(self).seats(),
            r == (from != on && !nominators(old(self).nominations(), on).contains(from)),
            final(self).nominations() == if from != on {
                old(self).nominations().insert(
                    on,
                    nominators(old(self).nominations(), on).insert(from),
                )
            } else {
                old(self).nominations()
            },
    ;

    fn result(&self) -> (r: Option<Self::Ballot>)
        requires
            self.sound(),
        ensures
            match r {
                Some(ballot) => {
                    &&& ballot.sound()
                    &&& ballot.seats() == self.seats()
                    &&& ballot.defendants() == nominees(self.nominations(), self.seats())
                    &&& ballot.defendants().len() > 0
                    &&& ballot.hangers() == Map::new(
                        |id: PlayerId| ballot.defendants().contains(id),
                        |id: PlayerId| Set::<PlayerId>::empty(),
                    )
                },
                None => nominees(self.nominations(), self.seats()) == Set::<PlayerId>::empty(),
            },
    ;
}

/// Those who have nominated `on`; nobody where `on` is no nominee.
pub open spec fn nominators(votes: Map<PlayerId, Set<PlayerId>>, on: PlayerId) -> Set<PlayerId> {
    if votes.contains_key(on) {
        votes[on]
    } else {
        Set::empty()
    }
}

/// The nominees that at least half of the seats have nominated.
pub open spec fn nominees(votes: Map<PlayerId, Set<PlayerId>>, seats: nat) -> Set<PlayerId> {
    votes.dom().filter(|id: PlayerId| votes[id].len() >= seats / 2)
}

/// The defendant who hangs, if there is one.
pub open spec fn condemned(votes: Map<PlayerId, Set<PlayerId>>, seats: nat) -> Option<PlayerId> {
    if exists|id: PlayerId| is_hanged(votes, seats, id) {
        Some(choose|id: PlayerId| is_hanged(votes, seats, id))
    } else {
        None
    }
}

/// At most one defendant hangs, so what `DeathBallot::dead` returns is
/// `condemned`.
pub proof fn lemma_one_hangs(votes: Map<PlayerId, Set<PlayerId>>, seats: nat, id: PlayerId)
    requires
        is_hanged(votes, seats, id),
    ensures
        condemned(votes, seats) == Some(id),
{
    let other = choose|other: PlayerId| is_hanged(votes, seats, other);
    assert(has_quorum(votes, seats, id));
    assert(has_quorum(votes, seats, other));
}

/// How a game with `mafia` living members of the mafia among `total`
/// living participants stands.
pub open spec fn verdict(mafia: nat, total: nat) -> State {
    if total - mafia <= mafia {
        State::MafiaWon
    } else if mafia == 0 {
        State::CityWon
    } else {
        State::Undecided
    }
}

/// The phase that follows `phase` in a game that stands as `standing`: a
/// game that is over stays as it is, a game that is decided is over, and
/// any other goes on to the next phase of the day.
pub open spec fn next_phase(phase: CityState, standing: State) -> CityState {
    match phase {
        CityState::Done(_) => phase,
        _ => if standing != State::Undecided {
            CityState::Done(standing)
        } else {
            match phase {
                CityState::Debate => CityState::Defend,
                CityState::Defend => CityState::Hang,
                CityState::Hang => CityState::Night,
                _ => CityState::Debate,
            }
        },
    }
}

/// The day in which the phase after `phase` lies: the next one after a
/// night of a game that goes on.
pub open spec fn next_day(phase: CityState, standing: State, day: Day) -> int {
    if phase == CityState::Night && standing == State::Undecided {
        day + 1
    } else {
        day as int
    }
}

/// A game that is over stays over, with the same outcome.
pub proof fn law_done_is_terminal(outcome: State, standing: State, day: Day)
    ensures
        next_phase(CityState::Done(outcome), standing) == CityState::Done(outcome),
        next_day(CityState::Done(outcome), standing, day) == day,
{
}

/// The day/night state machine of one game.
pub trait Scenario {
    /// The current phase.
    spec fn phase(&self) -> CityState;

    /// The current day.
    spec fn today(&self) -> Day;

    /// The declarations so far.
    spec fn log(&self) -> Seq<(Day, CityState, Declaration)>;

    /// How the game stands with those who are alive now.
    spec fn standing(&self) -> State;

    /// What the game keeps true of itself between calls.
    spec fn sound(&self) -> bool;

    fn state(&self) -> (r: CityState)
        ensures
            r == self.phase(),
    ;

    fn day(&self) -> (r: Day)
        ensures
            r == self.today(),
    ;

    /// Moves to the next phase and declares it; a game that is over stays
    /// as it is. The day is counted up after the night of a game that goes
    /// on, and has to have a successor then.
    fn next(&mut self) -> (r: CityState)
        requires
            old(self).sound(),
            old(self).phase() == CityState::Night && old(self).standing() == State::Undecided
                ==> old(self).today() < usize::MAX,
        ensures
            final(self).sound(),
            r == final(self).phase(),
            final(self).phase() == next_phase(old(self).phase(), old(self).standing()),
            final(self).today() == next_day(
                old(self).phase(),
                old(self).standing(),
                old(self).today(),
            ),
            final(self).standing() == old(self).standing(),
            final(self).log() == if old(self).phase() is Done {
                old(self).log()
            } else {
                old(self).log().push(
                    (final(self).today(), final(self).phase(), Declaration::StateChanged(
                        final(self).phase(),
                    )),
                )
            },
    ;

    fn events(&self) -> (r: &Vec<(Day, CityState, Declaration)>)
        ensures
            r@ == self.log(),
    ;

    /// Does what the current phase asks the game itself to do; it changes
    /// nothing that this trait shows.
    fn process(&mut self)
        requires
            old(self).sound(),
        ensures
            final(self).sound(),
            final(self).phase() == old(self).phase(),
            final(self).today() == old(self).today(),
            final(self).log() == old(self).log(),
            final(self).standing() == old(self).standing(),
    ;
}

} // verus!
