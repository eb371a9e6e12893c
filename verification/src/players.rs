use vstd::prelude::*;
use std::collections::BTreeMap;
use std::collections::HashSet;
use crate::models::{Id, Player};
use crate::roster::keys_of;

verus! {

broadcast use vstd::std_specs::btree::group_btree_axioms;

/// The players of a game, each under a number.
#[derive(Clone)]
pub struct Players(BTreeMap<u32, Player>);

/// `Iterator::collect` into a `HashSet`, which holds each item of the list
/// once.
#[verifier::external_body]
fn as_set(ids: Vec<Id>) -> (r: HashSet<Id>)
    ensures
        r@ == ids@.to_set(),
{
    ids.into_iter().collect::<HashSet<Id>>()
}

/// `BTreeMap::get_mut`, which hands out the value under the key for
/// change, and nothing where the key is not there.
#[verifier::external_body]
fn value_mut<'a>(map: &'a mut BTreeMap<u32, Player>, key: &u32) -> (r: Option<&'a mut Player>)
    ensures
        match r {
            Some(value) => old(map)@.contains_key(*key) && *value == old(map)@[*key] && final(map)@
                == old(map)@.insert(*key, *final(value)),
            None => !old(map)@.contains_key(*key) && final(map)@ == old(map)@,
        },
{
    map.get_mut(key)
}

impl Players {
    /// The players by the numbers of their ids.
    pub closed spec fn roster(&self) -> Map<u32, Player> {
        self.0@
    }

    /// No players.
    pub fn new() -> (r: Players)
        ensures
            r.roster() == Map::<u32, Player>::empty(),
    {
        Players(BTreeMap::new())
    }

    /// The ids of all players.
    pub fn ids(&self) -> (r: HashSet<Id>)
        ensures
            forall|id: Id| r@.contains(id) <==> self.roster().contains_key(id.0),
    {
        let keys = keys_of(&self.0);
        let mut ids: Vec<Id> = Vec::new();
        let mut i: usize = 0;
        while i < keys.len()
            invariant
                i <= keys.len(),
                ids@.len() == i,
                forall|j: int| 0 <= j < i ==> ids@[j] == Id(keys@[j]),
            decreases keys.len() - i,
        {
            ids.push(Id(keys[i]));
            i = i + 1;
        }
        proof {
            assert forall|id: Id| ids@.to_set().contains(id) <==> self.roster().contains_key(
                id.0,
            ) by {
                if ids@.contains(id) {
                    let j = choose|j: int| 0 <= j < ids@.len() && ids@[j] == id;
                    assert(keys@.to_set().contains(keys@[j]));
                }
                if self.roster().contains_key(id.0) {
                    assert(keys@.to_set().contains(id.0));
                    let j = choose|j: int| 0 <= j < keys@.len() && keys@[j] == id.0;
                    assert(ids@[j] == id);
                }
            }
        }
        as_set(ids)
    }

    /// Keeps `player` under `id`, in place of whoever had that id.
    pub fn append_as(&mut self, id: Id, player: Player)
        ensures
            final(self).roster() == old(self).roster().insert(id.0, player),
    {
        self.0.insert(id.0, player);
    }

    /// Keeps `player` under an id that chance picks, and says which.
    pub fn append(&mut self, player: Player) -> (r: Id)
        ensures
            final(self).roster() == old(self).roster().insert(r.0, player),
    {
        let id = Id::unique_random_id();
        self.append_as(id, player);
        id
    }

    pub fn get(&self, id: Id) -> (r: Option<&Player>)
        ensures
            match r {
                Some(player) => self.roster().contains_key(id.0) && *player == self.roster()[id.0],
                None => !self.roster().contains_key(id.0),
            },
    {
        self.0.get(&id.0)
    }

    /// The player under `id`, for change.
    pub fn get_mut(&mut self, id: Id) -> (r: Option<&mut Player>)
        ensures
            match r {
                Some(player) => old(self).roster().contains_key(id.0) && *player == old(
                    self,
                ).roster()[id.0] && final(self).roster() == old(self).roster().insert(
                    id.0,
                    *final(player),
                ),
                None => !old(self).roster().contains_key(id.0) && final(self).roster() == old(
                    self,
                ).roster(),
            },
    {
        value_mut(&mut self.0, &id.0)
    }
}

} // verus!
