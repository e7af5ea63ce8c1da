//! The rows of the list as one transaction sees them, and the storage
//! operations on them: counting, renumbering and inserting.
use crate::error::{CoreError, StorageError};
use crate::model::Player;
use crate::names::lower_of;
use vstd::prelude::*;

verus! {

/// A stored demon.
pub struct DemonRow {
    pub id: i32,
    pub name: String,
    pub position: i16,
    pub requirement: i16,
    pub video: Option<String>,
    pub verifier: i32,
    pub publisher: i32,
    pub fps: Option<String>,
    pub hidden: bool,
}

/// A stored player, with its name in the normalised form that the
/// case-insensitive uniqueness constraint is enforced on.
pub struct PlayerRow {
    pub id: i32,
    pub name: String,
    pub key: String,
}

/// A stored link between a demon and one of its creators.
#[derive(Debug, Clone, Copy, PartialEq, Eq, Structural)]
pub struct CreatorRow {
    pub demon: i32,
    pub creator: i32,
}

/// The state of storage inside one open unit of work. Nothing here commits:
/// the owner of the transaction commits or rolls back.
pub struct Transaction {
    pub demons: Vec<DemonRow>,
    pub players: Vec<PlayerRow>,
    pub creators: Vec<CreatorRow>,
    /// The id that the next inserted demon gets.
    pub next_demon_id: i32,
    /// The id that the next inserted player gets.
    pub next_player_id: i32,
}

impl PlayerRow {
    pub open spec fn player(&self) -> Player {
        Player { id: self.id, name: self.name }
    }
}

/// `r` after every demon at `from` or below has moved down one place.
pub open spec fn opened(r: DemonRow, from: int) -> DemonRow {
    if r.position >= from {
        DemonRow { position: (r.position + 1) as i16, ..r }
    } else {
        r
    }
}

/// `r` after every demon below `removed` has moved up one place.
pub open spec fn closed(r: DemonRow, removed: int) -> DemonRow {
    if r.position > removed {
        DemonRow { position: (r.position - 1) as i16, ..r }
    } else {
        r
    }
}

/// The positions of `rows` are exactly `1..=rows.len()`, each held once.
pub open spec fn gap_free(rows: Seq<DemonRow>) -> bool {
    &&& forall|i: int| 0 <= i < rows.len() ==> 1 <= #[trigger] rows[i].position <= rows.len()
    &&& forall|i: int, j: int|
        0 <= i < rows.len() && 0 <= j < rows.len() && i != j ==> #[trigger] rows[i].position
            != #[trigger] rows[j].position
}

/// Some row of `rows` holds `position`.
pub open spec fn occupied(rows: Seq<DemonRow>, position: int) -> bool {
    exists|i: int| 0 <= i < rows.len() && #[trigger] rows[i].position == position
}

/// Some player of `players` is stored under `key`.
pub open spec fn has_key(players: Seq<PlayerRow>, key: Seq<char>) -> bool {
    exists|i: int| 0 <= i < players.len() && #[trigger] players[i].key@ == key
}

/// The player stored under `key` is `p`.
pub open spec fn stored_as(players: Seq<PlayerRow>, key: Seq<char>, p: Player) -> bool {
    exists|i: int| 0 <= i < players.len() && #[trigger] players[i].key@ == key && players[i].player() == p
}

/// Opening a gap at `p` and placing a row there keeps the positions
/// gap-free.
pub proof fn lemma_open_then_place(rows: Seq<DemonRow>, after: Seq<DemonRow>, p: int)
    requires
        gap_free(rows),
        rows.len() < i16::MAX,
        1 <= p <= rows.len() + 1,
        after.len() == rows.len() + 1,
        forall|i: int| 0 <= i < rows.len() ==> #[trigger] after[i] == opened(rows[i], p),
        after[rows.len() as int].position == p,
    ensures
        gap_free(after),
{
    assert forall|i: int| 0 <= i < after.len() implies 1 <= #[trigger] after[i].position <= after.len() by {
        if i < rows.len() {
            assert(after[i] == opened(rows[i], p));
        }
    }
    assert forall|i: int, j: int|
        0 <= i < after.len() && 0 <= j < after.len() && i != j implies #[trigger] after[i].position
        != #[trigger] after[j].position by {
        if i < rows.len() {
            assert(after[i] == opened(rows[i], p));
        }
        if j < rows.len() {
            assert(after[j] == opened(rows[j], p));
        }
        if i < rows.len() && j < rows.len() {
            assert(rows[i].position != rows[j].position);
        }
    }
}

/// Closing the gap at `from` undoes opening it: every row is back where it
/// was.
pub proof fn lemma_close_undoes_open(r: DemonRow, from: int)
    requires
        r.position < i16::MAX,
    ensures
        closed(opened(r, from), from) == r,
{
}

impl Transaction {
    /// The invariants of storage: positions are gap-free and fit their
    /// column, ids lie below the next id, and no two players share a name
    /// up to case.
    pub open spec fn wf(&self) -> bool {
        &&& self.demons@.len() <= i16::MAX
        &&& gap_free(self.demons@)
        &&& forall|i: int| 0 <= i < self.demons@.len() ==> #[trigger] self.demons@[i].id < self.next_demon_id
        &&& forall|i: int| 0 <= i < self.players@.len() ==> #[trigger] self.players@[i].id < self.next_player_id
        &&& forall|i: int| 0 <= i < self.players@.len() ==> #[trigger] self.players@[i].key@ == lower_of(self.players@[i].name@)
        &&& forall|i: int, j: int|
            0 <= i < self.players@.len() && 0 <= j < self.players@.len() && i != j
                ==> #[trigger] self.players@[i].key@ != #[trigger] self.players@[j].key@
        &&& forall|i: int, j: int|
            0 <= i < self.players@.len() && 0 <= j < self.players@.len() && i != j
                ==> #[trigger] self.players@[i].id != #[trigger] self.players@[j].id
    }

    /// An empty list with no players.
    pub fn new() -> (r: Transaction)
        ensures
            r.wf(),
            r.demons@.len() == 0,
            r.players@.len() == 0,
            r.creators@.len() == 0,
            r.next_demon_id == 1,
            r.next_player_id == 1,
    {
        Transaction {
            demons: Vec::new(),
            players: Vec::new(),
            creators: Vec::new(),
            next_demon_id: 1,
            next_player_id: 1,
        }
    }

    /// The number of demons in the list.
    pub fn count(&self) -> (n: usize)
        ensures
            n == self.demons@.len(),
    {
        self.demons.len()
    }

    /// The index of the row that holds `position`, if any.
    pub fn demon_at(&self, position: i16) -> (r: Option<usize>)
        ensures
            match r {
                Some(i) => i < self.demons@.len() && self.demons@[i as int].position == position,
                None => !occupied(self.demons@, position as int),
            },
    {
        let mut i: usize = 0;
        while i < self.demons.len()
            invariant
                i <= self.demons@.len(),
                forall|k: int| 0 <= k < i ==> self.demons@[k].position != position,
            decreases self.demons@.len() - i,
        {
            if self.demons[i].position == position {
                return Some(i);
            }
            i += 1;
        }
        None
    }

    /// Checks that a new demon may be placed at `requested`: it must lie in
    /// `1..=N+1`. Changes nothing.
    pub fn validate_position(&self, requested: i16) -> (r: Result<(), CoreError>)
        ensures
            r is Ok <==> 1 <= requested <= self.demons@.len() + 1,
            r is Err ==> r == Err::<(), CoreError>(
                CoreError::Validation(crate::error::ValidationError::PositionOutOfRange),
            ),
    {
        let n = self.count();
        if requested < 1 || (requested - 1) as usize > n {
            Err(CoreError::Validation(crate::error::ValidationError::PositionOutOfRange))
        } else {
            Ok(())
        }
    }

    /// Moves every demon at `from` or below one place down, opening a gap at
    /// `from`. Fails, changing nothing, where the list is full: its last
    /// position is the largest that the position column holds.
    pub fn shift_open(&mut self, from: i16) -> (r: Result<(), CoreError>)
        requires
            gap_free(old(self).demons@),
            old(self).demons@.len() <= i16::MAX,
        ensures
            r is Ok <==> old(self).demons@.len() < i16::MAX,
            r is Err ==> r == Err::<(), CoreError>(CoreError::Storage(StorageError::PositionOverflow)),
            r is Err ==> *final(self) == *old(self),
            final(self).demons@.len() == old(self).demons@.len(),
            r is Ok ==> forall|i: int|
                0 <= i < old(self).demons@.len() ==> #[trigger] final(self).demons@[i] == opened(
                    old(self).demons@[i],
                    from as int,
                ),
            final(self).players == old(self).players,
            final(self).creators == old(self).creators,
            final(self).next_demon_id == old(self).next_demon_id,
            final(self).next_player_id == old(self).next_player_id,
    {
        let n = self.demons.len();
        if n >= i16::MAX as usize {
            return Err(CoreError::Storage(StorageError::PositionOverflow));
        }
        let mut i: usize = n;
        // Row by row, from the last row to the first.
        while i > 0
            invariant
                i <= n == self.demons@.len() == old(self).demons@.len(),
                n < i16::MAX,
                gap_free(old(self).demons@),
                forall|k: int| 0 <= k < i ==> #[trigger] self.demons@[k] == old(self).demons@[k],
                forall|k: int|
                    i <= k < n ==> #[trigger] self.demons@[k] == opened(old(self).demons@[k], from as int),
                self.players == old(self).players,
                self.creators == old(self).creators,
                self.next_demon_id == old(self).next_demon_id,
                self.next_player_id == old(self).next_player_id,
            decreases i,
        {
            i -= 1;
            assert(old(self).demons@[i as int].position <= n);
            if self.demons[i].position >= from {
                self.demons[i].position = self.demons[i].position + 1;
            }
        }
        Ok(())
    }

    /// Moves every demon below `removed` one place up, closing the gap that
    /// the removal of the demon at `removed` left.
    pub fn shift_close(&mut self, removed: i16)
        ensures
            final(self).demons@.len() == old(self).demons@.len(),
            forall|i: int|
                0 <= i < old(self).demons@.len() ==> #[trigger] final(self).demons@[i] == closed(
                    old(self).demons@[i],
                    removed as int,
                ),
            final(self).players == old(self).players,
            final(self).creators == old(self).creators,
            final(self).next_demon_id == old(self).next_demon_id,
            final(self).next_player_id == old(self).next_player_id,
    {
        let n = self.demons.len();
        let mut i: usize = 0;
        while i < n
            invariant
                i <= n == self.demons@.len() == old(self).demons@.len(),
                forall|k: int| i <= k < n ==> #[trigger] self.demons@[k] == old(self).demons@[k],
                forall|k: int|
                    0 <= k < i ==> #[trigger] self.demons@[k] == closed(old(self).demons@[k], removed as int),
                self.players == old(self).players,
                self.creators == old(self).creators,
                self.next_demon_id == old(self).next_demon_id,
                self.next_player_id == old(self).next_player_id,
            decreases n - i,
        {
            if self.demons[i].position > removed {
                self.demons[i].position = self.demons[i].position - 1;
            }
            i += 1;
        }
    }

    /// Inserts a demon row and returns its id. The uniqueness constraint on
    /// positions rejects a position that is already held.
    pub fn insert_demon(
        &mut self,
        name: String,
        position: i16,
        requirement: i16,
        video: Option<String>,
        verifier: i32,
        publisher: i32,
        fps: Option<String>,
        hidden: bool,
    ) -> (r: Result<i32, CoreError>)
        ensures
            occupied(old(self).demons@, position as int) ==> r == Err::<i32, CoreError>(
                CoreError::Conflict,
            ),
            !occupied(old(self).demons@, position as int) && old(self).next_demon_id == i32::MAX
                ==> r == Err::<i32, CoreError>(CoreError::Storage(StorageError::IdsExhausted)),
            r is Ok <==> !occupied(old(self).demons@, position as int) && old(self).next_demon_id
                != i32::MAX,
            r is Err ==> *final(self) == *old(self),
            r matches Ok(id) ==> {
                &&& id == old(self).next_demon_id
                &&& final(self).demons@ == old(self).demons@.push(
                    DemonRow {
                        id,
                        name,
                        position,
                        requirement,
                        video,
                        verifier,
                        publisher,
                        fps,
                        hidden,
                    },
                )
                &&& final(self).next_demon_id == id + 1
                &&& final(self).players == old(self).players
                &&& final(self).creators == old(self).creators
                &&& final(self).next_player_id == old(self).next_player_id
            },
    {
        if let Some(_) = self.demon_at(position) {
            return Err(CoreError::Conflict);
        }
        if self.next_demon_id == i32::MAX {
            return Err(CoreError::Storage(StorageError::IdsExhausted));
        }
        let id = self.next_demon_id;
        self.demons.push(
            DemonRow { id, name, position, requirement, video, verifier, publisher, fps, hidden },
        );
        self.next_demon_id = id + 1;
        Ok(id)
    }

    /// Inserts a link between a demon and a creator. Links are not
    /// deduplicated.
    pub fn insert_creator(&mut self, demon: i32, creator: i32)
        ensures
            final(self).creators@ == old(self).creators@.push(CreatorRow { demon, creator }),
            final(self).demons == old(self).demons,
            final(self).players == old(self).players,
            final(self).next_demon_id == old(self).next_demon_id,
            final(self).next_player_id == old(self).next_player_id,
    {
        self.creators.push(CreatorRow { demon, creator });
    }

    /// The player stored under the normalised name `key`, if any.
    pub fn player_by_key(&self, key: &String) -> (r: Option<Player>)
        ensures
            match r {
                Some(p) => stored_as(self.players@, key@, p),
                None => !has_key(self.players@, key@),
            },
    {
        let mut i: usize = 0;
        while i < self.players.len()
            invariant
                i <= self.players@.len(),
                forall|k: int| 0 <= k < i ==> self.players@[k].key@ != key@,
            decreases self.players@.len() - i,
        {
            if self.players[i].key == *key {
                let row = &self.players[i];
                return Some(Player { id: row.id, name: row.name.clone() });
            }
            i += 1;
        }
        None
    }

    /// Inserts a player named `name`, stored under its normalised form
    /// `key`. The case-insensitive uniqueness constraint rejects a key that
    /// is already stored.
    pub fn insert_player(&mut self, name: &String, key: &String) -> (r: Result<Player, CoreError>)
        requires
            old(self).wf(),
            key@ == lower_of(name@),
        ensures
            has_key(old(self).players@, key@) ==> r == Err::<Player, CoreError>(CoreError::Conflict),
            !has_key(old(self).players@, key@) && old(self).next_player_id == i32::MAX ==> r == Err::<
                Player,
                CoreError,
            >(CoreError::Storage(StorageError::IdsExhausted)),
            r is Ok <==> !has_key(old(self).players@, key@) && old(self).next_player_id != i32::MAX,
            r is Err ==> *final(self) == *old(self),
            r matches Ok(p) ==> {
                &&& p == Player { id: old(self).next_player_id, name: *name }
                &&& final(self).players@ == old(self).players@.push(
                    PlayerRow { id: p.id, name: *name, key: *key },
                )
                &&& final(self).next_player_id == p.id + 1
                &&& final(self).demons == old(self).demons
                &&& final(self).creators == old(self).creators
                &&& final(self).next_demon_id == old(self).next_demon_id
            },
            final(self).wf(),
    {
        if let Some(_) = self.player_by_key(key) {
            return Err(CoreError::Conflict);
        }
        if self.next_player_id == i32::MAX {
            return Err(CoreError::Storage(StorageError::IdsExhausted));
        }
        let id = self.next_player_id;
        self.players.push(PlayerRow { id, name: name.clone(), key: key.clone() });
        self.next_player_id = id + 1;
        Ok(Player { id, name: name.clone() })
    }
}

} // verus!
