use vstd::prelude::*;
use crate::player_repository::{Id, PlayerCount};

verus! {

/// How a game stands for the city.
#[derive(Clone, Copy, Debug, PartialEq, Eq, Structural)]
pub enum Status {
    Fighting,
    Won,
    Lost,
    WTF,
}

/// A game that collects the acts of a night and applies them on waking up.
pub trait Scene: Sized + Clone {
    /// The acts that wait for the next waking up: who acts on whom.
    spec fn pending(&self) -> Seq<(Id, Id)>;

    /// The number of times that the count of the living is still told.
    spec fn answers_left(&self) -> u32;

    /// Applies the acts that wait, forgets them, and says how the game
    /// stands.
    fn wakeup(&mut self) -> (r: Status)
        ensures
            final(self).pending() == Seq::<(Id, Id)>::empty(),
            final(self).answers_left() == old(self).answers_left(),
    ;

    /// Notes that `from` acts on `on`.
    fn cast_on(&mut self, from: Id, on: Id)
        ensures
            final(self).pending() == old(self).pending().push((from, on)),
            final(self).answers_left() == old(self).answers_left(),
    ;

    /// The count of the living, as long as it is still told.
    fn status(&mut self) -> (r: Option<PlayerCount>)
        ensures
            r is Some == (old(self).answers_left() > 0),
            final(self).answers_left() == if old(self).answers_left() > 0 {
                (old(self).answers_left() - 1) as u32
            } else {
                0u32
            },
            final(self).pending() == old(self).pending(),
    ;
}

} // verus!
