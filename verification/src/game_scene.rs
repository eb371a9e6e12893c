use vstd::prelude::*;
use crate::player::{Caster, RoleKind};
use crate::player_repository::{sole, Id, PlayerCount, PlayerRepository};
use crate::scene::{Scene, Status};

verus! {

/// Who acts on whom.
pub type ActionRequest = (Id, Id);

/// How a game with these numbers of the living stands: lost where the
/// mafia has caught up with the citizens, won where neither mafia nor a
/// psycho is left, and beyond reason where only a psycho is.
pub open spec fn status_of(count: PlayerCount) -> Status {
    if count.mafia == count.citizen && count.mafia >= 1 && count.psycho == 0 {
        Status::Lost
    } else if count.mafia == 0 && count.psycho == 0 {
        Status::Won
    } else if count.mafia == 0 && count.citizen == 0 && count.psycho != 0 {
        Status::WTF
    } else {
        Status::Fighting
    }
}

/// The count of the living in `players`.
pub open spec fn census<R: PlayerRepository>(players: R) -> PlayerCount {
    PlayerCount {
        mafia: players.alive_of(RoleKind::Mafia) as usize,
        citizen: players.alive_of(RoleKind::Citizen) as usize,
        psycho: players.alive_of(RoleKind::Psycho) as usize,
    }
}

/// A game over a repository of players.
#[derive(Clone)]
pub struct GameScene<R: PlayerRepository> {
    status_requested: u32,
    players: R,
    events: Vec<ActionRequest>,
}

impl<R: PlayerRepository> GameScene<R> {
    /// The players.
    pub closed spec fn players(&self) -> R {
        self.players
    }

    /// A game of `players` that tells the count of the living
    /// `status_limit` times.
    pub fn new(players: R, status_limit: u32) -> (r: GameScene<R>)
        ensures
            r.players() == players,
            r.answers_left() == status_limit,
            r.pending() == Seq::<ActionRequest>::empty(),
    {
        GameScene { status_requested: status_limit, players: players, events: Vec::new() }
    }

    /// Lets `from` act on `on`, where both were handed out for change.
    /// Says so with `Some`, and with `None` that one of them was not; then
    /// nobody has acted.
    pub fn act(from: Option<&mut R::K>, on: Option<&mut R::K>) -> (r: Option<()>)
        ensures
            r is Some == (from is Some && on is Some),
            r is None ==> (from matches Some(player) ==> *final(player) == *player),
            r is None ==> (on matches Some(player) ==> *final(player) == *player),
    {
        match (from, on) {
            (Some(from), Some(on)) => {
                from.cast_on(on);
                Some(())
            },
            _ => None,
        }
    }

    /// Lets each who waits to act do so, in the order of asking, as far as
    /// both players are found alive and nobody else holds on to them;
    /// stops at the first act for which this fails, and says so with
    /// `None`. The acts stay noted, and the players who are kept are
    /// counted as before.
    pub fn eval_events(&mut self) -> (r: Option<()>)
        ensures
            final(self).pending() == old(self).pending(),
            final(self).answers_left() == old(self).answers_left(),
            forall|kind: RoleKind|
                final(self).players().alive_of(kind) == old(self).players().alive_of(kind),
            old(self).pending().len() == 0 ==> r is Some,
    {
        let mut i: usize = 0;
        while i < self.events.len()
            invariant
                i <= self.events.len(),
                self.events == old(self).events,
                self.status_requested == old(self).status_requested,
                forall|kind: RoleKind|
                    self.players.alive_of(kind) == old(self).players.alive_of(kind),
            decreases self.events.len() - i,
        {
            let mut ra = match self.players.get(&self.events[i].0) {
                Some(ra) => ra,
                None => {
                    return None;
                },
            };
            let mut rb = match self.players.get(&self.events[i].1) {
                Some(rb) => rb,
                None => {
                    return None;
                },
            };
            if Self::act(sole(&mut ra), sole(&mut rb)).is_none() {
                return None;
            }
            i = i + 1;
        }
        Some(())
    }

    /// How the game stands.
    pub fn state(&self) -> (r: Status)
        ensures
            r == status_of(census(self.players())),
    {
        let count = self.players.count_alives();
        if count.mafia == count.citizen && count.mafia >= 1 && count.psycho == 0 {
            Status::Lost
        } else if count.mafia == 0 && count.psycho == 0 {
            Status::Won
        } else if count.mafia == 0 && count.citizen == 0 && count.psycho != 0 {
            Status::WTF
        } else {
            Status::Fighting
        }
    }
}

impl<R: PlayerRepository> Scene for GameScene<R> {
    closed spec fn pending(&self) -> Seq<(Id, Id)> {
        self.events@
    }

    closed spec fn answers_left(&self) -> u32 {
        self.status_requested
    }

    fn wakeup(&mut self) -> (r: Status)
        ensures
            r == status_of(census(final(self).players())),
            r == status_of(census(old(self).players())),
    {
        self.eval_events();
        self.events.clear();
        self.state()
    }

    fn cast_on(&mut self, from: Id, on: Id)
        ensures
            final(self).players() == old(self).players(),
    {
        self.events.push((from, on));
    }

    fn status(&mut self) -> (r: Option<PlayerCount>)
        ensures
            final(self).players() == old(self).players(),
            r matches Some(count) ==> count == census(old(self).players()),
    {
        if self.status_requested <= 0 {
            return None;
        }
        self.status_requested -= 1;
        Some(self.players.count_alives())
    }
}

} // verus!
