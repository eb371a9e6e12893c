use vstd::prelude::*;

verus! {

/// What is known of a user: the name.
#[derive(Debug, Clone)]
pub struct UserInfo(pub String);

/// What a detective has found out, in the order of finding.
pub type MailBox = Vec<bool>;

/// A role with what it has left to use.
#[derive(Debug, Clone, PartialEq)]
pub enum Role {
    Peasant,
    Armoured(u32),
    /// With the number of times that the doctor still acts on themself.
    Doctor(u32),
    /// With what the detective has found out.
    Detective(MailBox),
    /// With the number of bullets left.
    Sniper(u32),
    Natasha,
    /// With the number of enquiries that still find the godfather out.
    GodFather(u32),
    Silencer,
    Spy,
    Psycho,
}

/// How a player is.
#[derive(Debug, Clone, PartialEq, Eq, Copy, Structural)]
pub enum LifeState {
    Alive,
    Silent,
    Injured,
    Hanged,
    Killed,
}

/// The side that a role is on.
#[derive(Debug, Clone, PartialEq, Eq, Copy, Structural)]
pub enum RoleKind {
    Citizen,
    Mafia,
    Psycho,
}

/// A role as a plain value.
pub enum RoleView {
    Peasant,
    Armoured(u32),
    Doctor(u32),
    Detective(Seq<bool>),
    Sniper(u32),
    Natasha,
    GodFather(u32),
    Silencer,
    Spy,
    Psycho,
}

impl View for Role {
    type V = RoleView;

    open spec fn view(&self) -> RoleView {
        match *self {
            Role::Peasant => RoleView::Peasant,
            Role::Armoured(n) => RoleView::Armoured(n),
            Role::Doctor(n) => RoleView::Doctor(n),
            Role::Detective(mail) => RoleView::Detective(mail@),
            Role::Sniper(n) => RoleView::Sniper(n),
            Role::Natasha => RoleView::Natasha,
            Role::GodFather(n) => RoleView::GodFather(n),
            Role::Silencer => RoleView::Silencer,
            Role::Spy => RoleView::Spy,
            Role::Psycho => RoleView::Psycho,
        }
    }
}

/// Whether a player in `state` is in the game.
pub open spec fn alive(state: LifeState) -> bool {
    state == LifeState::Alive || state == LifeState::Injured || state == LifeState::Silent
}

/// Whether a player may go from `from` to `to`: between alive, silent and
/// injured but for injured to silent, from injured to hanged or killed, and
/// from any state to itself.
pub open spec fn may_become(from: LifeState, to: LifeState) -> bool {
    from == to || match from {
        LifeState::Silent => to == LifeState::Alive || to == LifeState::Injured,
        LifeState::Alive => to == LifeState::Injured || to == LifeState::Silent,
        LifeState::Injured => to == LifeState::Alive || to == LifeState::Killed || to
            == LifeState::Hanged,
        _ => false,
    }
}

/// The count `n` after one use, and whether there was one to use.
pub open spec fn used(n: u32) -> (u32, bool) {
    if n == 0 {
        (0u32, false)
    } else {
        ((n - 1) as u32, true)
    }
}

/// A player as a plain value.
pub struct PlayerView {
    pub name: Seq<char>,
    pub role: RoleView,
    pub state: LifeState,
}

impl PlayerView {
    /// The side that the player is on.
    pub open spec fn kind(self) -> RoleKind {
        match self.role {
            RoleView::GodFather(_) | RoleView::Silencer | RoleView::Spy => RoleKind::Mafia,
            RoleView::Psycho => RoleKind::Psycho,
            _ => RoleKind::Citizen,
        }
    }

    /// The player in `to`, where it may become so; else as it is.
    pub open spec fn set_state(self, to: LifeState) -> PlayerView {
        if may_become(self.state, to) {
            PlayerView { state: to, ..self }
        } else {
            self
        }
    }

    /// What an enquiry finds: a godfather is found out as long as the
    /// count lasts, which each enquiry lowers; of anybody else the side.
    pub open spec fn seems_mafia(self) -> bool {
        match self.role {
            RoleView::GodFather(n) => n > 0,
            _ => self.kind() == RoleKind::Mafia,
        }
    }

    /// The player after an enquiry.
    pub open spec fn enquired(self) -> PlayerView {
        match self.role {
            RoleView::GodFather(n) => PlayerView { role: RoleView::GodFather(used(n).0), ..self },
            _ => self,
        }
    }
}

/// What becomes of `caster` and of `on` when the first acts on the second,
/// and whether the act took effect. `itself` says that the two are one
/// player.
pub open spec fn cast(caster: PlayerView, on: PlayerView, itself: bool) -> (
    PlayerView,
    PlayerView,
    bool,
) {
    match caster.role {
        RoleView::Detective(mail) => (
            PlayerView { role: RoleView::Detective(mail.push(on.seems_mafia())), ..caster },
            on.enquired(),
            true,
        ),
        RoleView::Doctor(n) => {
            let (left, had) = used(n);
            if !itself {
                (
                    PlayerView { role: RoleView::Doctor(left), ..caster },
                    on.set_state(LifeState::Alive),
                    may_become(on.state, LifeState::Alive),
                )
            } else if had {
                let (last, again) = used(left);
                (
                    PlayerView { role: RoleView::Doctor(last), ..caster },
                    if again {
                        on.set_state(LifeState::Alive)
                    } else {
                        on
                    },
                    again && may_become(on.state, LifeState::Alive),
                )
            } else {
                (PlayerView { role: RoleView::Doctor(left), ..caster }, on, false)
            }
        },
        RoleView::Sniper(n) => {
            let (left, had) = used(n);
            let shot = PlayerView { role: RoleView::Sniper(left), ..caster };
            if !had {
                (shot, on, false)
            } else if on.kind() == RoleKind::Citizen {
                (shot.set_state(LifeState::Injured), on, may_become(shot.state, LifeState::Injured))
            } else {
                (shot, on.set_state(LifeState::Injured), may_become(on.state, LifeState::Injured))
            }
        },
        RoleView::Psycho => (
            caster,
            on.set_state(LifeState::Injured),
            may_become(on.state, LifeState::Injured),
        ),
        RoleView::Silencer => (
            caster,
            on.set_state(LifeState::Silent),
            may_become(on.state, LifeState::Silent),
        ),
        _ => (caster, on, false),
    }
}

/// A user in a game, with role and state.
#[derive(Debug, Clone)]
pub struct Player {
    user: UserInfo,
    role: Role,
    state: LifeState,
}

impl View for Player {
    type V = PlayerView;

    closed spec fn view(&self) -> PlayerView {
        PlayerView { name: self.user.0@, role: self.role@, state: self.state }
    }
}

/// One who takes part in a game and acts on others.
pub trait Caster: Sized + Clone {
    /// How the player is.
    spec fn life(&self) -> LifeState;

    /// The side that the player is on.
    spec fn side(&self) -> RoleKind;

    fn info(&self) -> &UserInfo;

    fn is_alive(&self) -> (r: bool)
        ensures
            r == alive(self.life()),
    ;

    fn kind(&self) -> (r: RoleKind)
        ensures
            r == self.side(),
    ;

    fn state(&self) -> (r: LifeState)
        ensures
            r == self.life(),
    ;

    /// An injured player dies.
    fn kill(&mut self)
        requires
            may_become(old(self).life(), LifeState::Killed),
        ensures
            final(self).life() == LifeState::Killed,
            final(self).side() == old(self).side(),
    ;

    /// Acts on `on`. Says whether the act took effect.
    fn cast_on(&mut self, on: &mut Self) -> bool;
}

/// `std::ptr::eq`, which says whether the two references point to one
/// place. Nothing is stated of the result.
#[verifier::external_body]
fn same_place(a: &Player, b: &Player) -> (r: bool) {
    std::ptr::eq(a, b)
}

impl Player {
    pub fn new(user: UserInfo, role: Role) -> (r: Player)
        ensures
            r@ == (PlayerView { name: user.0@, role: role@, state: LifeState::Alive }),
    {
        Player { user: user, role: role, state: LifeState::Alive }
    }

    /// What an enquiry about `player` finds; it costs a godfather one of
    /// the times of being found out.
    pub fn is_it_mafia(player: &mut Player) -> (r: bool)
        ensures
            r == old(player)@.seems_mafia(),
            final(player)@ == old(player)@.enquired(),
    {
        if let Role::GodFather(n) = player.role {
            let mut left = n;
            let had = Self::use_power(&mut left);
            player.role = Role::GodFather(left);
            had
        } else {
            matches!(player.kind(), RoleKind::Mafia)
        }
    }

    /// Uses the count once. Says whether there was one to use.
    pub fn use_power(n: &mut u32) -> (r: bool)
        ensures
            (*final(n), r) == used(*old(n)),
    {
        if *n == 0 {
            return false;
        }
        *n -= 1;
        true
    }

    /// Puts the player in `state`, where it may become so. Says whether it
    /// is now in `state`.
    pub fn set_state(&mut self, state: LifeState) -> (r: bool)
        ensures
            r == may_become(old(self)@.state, state),
            final(self)@ == old(self)@.set_state(state),
    {
        let s = match self.state {
            LifeState::Silent => matches!(state, LifeState::Alive | LifeState::Injured),
            LifeState::Alive => matches!(state, LifeState::Injured | LifeState::Silent),
            LifeState::Injured => matches!(
                state,
                LifeState::Alive | LifeState::Killed | LifeState::Hanged
            ),
            _ => false,
        };
        if s || state == self.state {
            self.state = state;
            true
        } else {
            false
        }
    }

    /// Acts on `on`, where `self_call` says that `on` is this player.
    pub fn cast_with(&mut self, on: &mut Player, self_call: bool) -> (r: bool)
        ensures
            (final(self)@, final(on)@, r) == cast(old(self)@, old(on)@, self_call),
    {
        match &mut self.role {
            Role::Detective(mail) => {
                let found = Self::is_it_mafia(on);
                mail.push(found);
                true
            },
            Role::Doctor(n) => {
                let had = Self::use_power(n);
                if !self_call {
                    on.set_state(LifeState::Alive)
                } else if had {
                    Self::use_power(n) && on.set_state(LifeState::Alive)
                } else {
                    false
                }
            },
            Role::Sniper(n) => {
                let had = Self::use_power(n);
                if !had {
                    false
                } else if on.kind() == RoleKind::Citizen {
                    self.set_state(LifeState::Injured)
                } else {
                    on.set_state(LifeState::Injured)
                }
            },
            Role::Psycho => on.set_state(LifeState::Injured),
            Role::Silencer => on.set_state(LifeState::Silent),
            _ => false,
        }
    }
}

impl Caster for Player {
    open spec fn life(&self) -> LifeState {
        self@.state
    }

    open spec fn side(&self) -> RoleKind {
        self@.kind()
    }

    fn info(&self) -> (r: &UserInfo)
        ensures
            r.0@ == self@.name,
    {
        &self.user
    }

    /// Acts on `on` as `cast` says, for one of the two answers to the
    /// question whether `on` is this player.
    fn cast_on(&mut self, on: &mut Player) -> (r: bool)
        ensures
            exists|itself: bool| (final(self)@, final(on)@, r) == cast(old(self)@, old(on)@, itself),
    {
        let self_call = same_place(self, on);
        self.cast_with(on, self_call)
    }

    fn is_alive(&self) -> (r: bool) {
        matches!(self.state, LifeState::Alive | LifeState::Injured | LifeState::Silent)
    }

    fn state(&self) -> (r: LifeState) {
        self.state
    }

    fn kind(&self) -> (r: RoleKind) {
        match self.role {
            Role::GodFather(..) | Role::Silencer | Role::Spy => RoleKind::Mafia,
            Role::Psycho => RoleKind::Psycho,
            _ => RoleKind::Citizen,
        }
    }

    fn kill(&mut self) {
        self.set_state(LifeState::Killed);
    }
}

} // verus!
