//! Resolving a player by name, case-insensitively, creating it on first
//! reference.
use crate::error::{CoreError, StorageError};
use crate::model::Player;
use crate::names::{fold_case, lower_of};
use crate::store::{has_key, stored_as, PlayerRow, Transaction};
use vstd::prelude::*;

verus! {

/// `b` holds every row of `a` at the same index, and perhaps more after them.
pub open spec fn extends(b: Seq<PlayerRow>, a: Seq<PlayerRow>) -> bool {
    &&& a.len() <= b.len()
    &&& forall|i: int| 0 <= i < a.len() ==> #[trigger] b[i] == a[i]
}

/// One resolution of `name`, stored under `key`, took storage from `before`
/// to `after` and returned `r`: the player already stored under `key` is
/// returned untouched; otherwise a new player with the name's own casing is
/// added under the next id, unless no id is left.
pub open spec fn resolved(
    before: Transaction,
    after: Transaction,
    name: Seq<char>,
    key: Seq<char>,
    r: Result<Player, CoreError>,
) -> bool {
    if has_key(before.players@, key) {
        &&& after == before
        &&& match r {
            Ok(p) => stored_as(before.players@, key, p),
            Err(_) => false,
        }
    } else if before.next_player_id == i32::MAX {
        &&& after == before
        &&& r == Err::<Player, CoreError>(CoreError::Storage(StorageError::IdsExhausted))
    } else {
        match r {
            Ok(p) => {
                &&& p.id == before.next_player_id
                &&& p.name@ == name
                &&& after.players@.len() == before.players@.len() + 1
                &&& extends(after.players@, before.players@)
                &&& after.players@.last().player() == p
                &&& after.players@.last().key@ == key
                &&& after.next_player_id == p.id + 1
                &&& after.demons == before.demons
                &&& after.creators == before.creators
                &&& after.next_demon_id == before.next_demon_id
            },
            Err(_) => false,
        }
    }
}

/// What a player stored under `key` in `a` remains in every extension of `a`.
pub proof fn lemma_stored_kept(a: Seq<PlayerRow>, b: Seq<PlayerRow>, key: Seq<char>, p: Player)
    requires
        stored_as(a, key, p),
        extends(b, a),
    ensures
        stored_as(b, key, p),
{
    let i = choose|i: int| 0 <= i < a.len() && #[trigger] a[i].key@ == key && a[i].player() == p;
    assert(b[i] == a[i]);
}

/// Two names equal up to case resolve, one after the other, to the same
/// player, and the second resolution adds no player.
pub proof fn lemma_same_name_same_player(
    t0: Transaction,
    t1: Transaction,
    t2: Transaction,
    a: Seq<char>,
    b: Seq<char>,
    r1: Result<Player, CoreError>,
    r2: Result<Player, CoreError>,
)
    requires
        t0.wf(),
        t1.wf(),
        resolved(t0, t1, a, lower_of(a), r1),
        resolved(t1, t2, b, lower_of(b), r2),
        lower_of(a) == lower_of(b),
        r1 is Ok,
    ensures
        r2 == r1,
        t2 == t1,
        t1.players@.len() <= t0.players@.len() + 1,
{
    let k = lower_of(a);
    if has_key(t0.players@, k) {
        lemma_stored_kept(t0.players@, t1.players@, k, r1->Ok_0);
    } else {
        let last = t1.players@.len() - 1;
        assert(t1.players@[last].key@ == k);
    }
    assert(has_key(t1.players@, k));
    let i = choose|i: int|
        0 <= i < t1.players@.len() && #[trigger] t1.players@[i].key@ == k && t1.players@[i].player()
            == r1->Ok_0;
    let j = choose|j: int|
        0 <= j < t1.players@.len() && #[trigger] t1.players@[j].key@ == k && t1.players@[j].player()
            == r2->Ok_0;
    assert(i == j);
}

impl Transaction {
    /// Resolves `name`, whose normalised form is `key`: returns the player
    /// stored under `key`, or stores a new one. Should a concurrent writer
    /// store the key first, the insert is rejected and the lookup is made
    /// once more.
    pub fn by_key_or_create(&mut self, name: &String, key: &String) -> (r: Result<Player, CoreError>)
        requires
            old(self).wf(),
            key@ == lower_of(name@),
        ensures
            final(self).wf(),
            resolved(*old(self), *final(self), name@, key@, r),
    {
        if let Some(player) = self.player_by_key(key) {
            return Ok(player);
        }
        match self.insert_player(name, key) {
            Ok(player) => {
                proof {
                    let last = self.players@.len() - 1;
                    assert(self.players@[last].player() == player);
                }
                Ok(player)
            },
            Err(CoreError::Conflict) => match self.player_by_key(key) {
                Some(player) => Ok(player),
                None => Err(CoreError::Conflict),
            },
            Err(e) => Err(e),
        }
    }

    /// Resolves `name` case-insensitively: returns the stored player whose
    /// name equals it up to case, or stores a new one with `name`'s casing.
    pub fn by_name_or_create(&mut self, name: &String) -> (r: Result<Player, CoreError>)
        requires
            old(self).wf(),
        ensures
            final(self).wf(),
            resolved(*old(self), *final(self), name@, lower_of(name@), r),
    {
        let key = fold_case(name.as_str());
        self.by_key_or_create(name, &key)
    }
}

} // verus!
