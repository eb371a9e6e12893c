use vstd::prelude::*;

verus! {

/// The number under which a player is kept.
#[derive(Hash, Eq, PartialEq, Debug, Clone, Copy, PartialOrd, Ord, Structural)]
pub struct Id(pub u32);

/// `rand::random`, which draws a value from the generator of the thread.
/// Nothing is stated of the number.
#[verifier::external_body]
fn random_number() -> (r: u32) {
    rand::random::<u32>()
}

impl Id {
    /// A number that chance picks among all of them, so that two calls
    /// seldom give the same.
    pub fn unique_random_id() -> Id {
        Id(random_number())
    }
}

/// What is known of a user: the name.
#[derive(Debug, Clone)]
pub struct UserInfo(pub String);

/// A role with what it has left to use.
#[derive(Hash, Eq, PartialEq, Debug, Clone, Copy, Structural)]
pub enum Role {
    Mafia,
    Citizen,
    /// With the number of attacks that the armour takes.
    Armoured(u32),
    /// With the number of bullets.
    Sniper(u32),
    /// With the number of times the doctor heals themself.
    Doctor(u32),
    GodFather,
    Detective,
    Silencer,
    Natasha,
    Psycho,
}

impl Role {
    /// Whether the role sides with the mafia.
    pub open spec fn sides_with_mafia(self) -> bool {
        self == Role::Mafia || self == Role::Silencer || self == Role::Natasha || self
            == Role::GodFather
    }

    pub fn is_mafia(&self) -> (r: bool)
        ensures
            r == self.sides_with_mafia(),
    {
        match self {
            Role::Mafia => true,
            Role::Silencer => true,
            Role::Natasha => true,
            Role::GodFather => true,
            _ => false,
        }
    }
}

/// A user with the role that it plays.
#[derive(Debug, Clone)]
pub struct Player {
    pub user: UserInfo,
    pub role: Role,
}

/// The users who wait for a game, in the order in which they came.
pub struct WaitingRoom(Vec<UserInfo>);

impl WaitingRoom {
    /// The names of those who wait, in the order in which they came.
    pub closed spec fn names(&self) -> Seq<Seq<char>> {
        self.0@.map_values(|user: UserInfo| user.0@)
    }

    pub fn init() -> (r: WaitingRoom)
        ensures
            r.names() == Seq::<Seq<char>>::empty(),
    {
        let r = WaitingRoom(Vec::new());
        assert(r.names() =~= Seq::<Seq<char>>::empty());
        r
    }

    pub fn join(&mut self, user: UserInfo)
        ensures
            final(self).names() == old(self).names().push(user.0@),
    {
        self.0.push(user);
        assert(self.names() =~= old(self).names().push(user.0@));
    }

    /// Those who wait, in the order in which they came.
    pub fn users(&self) -> (r: &Vec<UserInfo>)
        ensures
            r@.map_values(|user: UserInfo| user.0@) == self.names(),
    {
        &self.0
    }
}

} // verus!
