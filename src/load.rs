//! Building the view of storage that a transaction starts from, checked
//! against the invariants of storage.
use crate::names::{fold_case, lower_of};
use crate::store::{gap_free, DemonRow, PlayerRow, Transaction};
use vstd::prelude::*;

verus! {

/// The players at `a` and `b` have different ids and names that differ
/// also up to case.
pub open spec fn apart(players: Seq<(i32, String)>, a: int, b: int) -> bool {
    &&& lower_of(players[a].1@) != lower_of(players[b].1@)
    &&& players[a].0 != players[b].0
}

/// No two of `players` have names equal up to case, nor equal ids, and all
/// ids lie below `next_id`.
pub open spec fn players_acceptable(players: Seq<(i32, String)>, next_id: i32) -> bool {
    &&& forall|i: int| 0 <= i < players.len() ==> #[trigger] players[i].0 < next_id
    &&& forall|i: int, j: int|
        0 <= i < players.len() && 0 <= j < players.len() && i != j ==> #[trigger] apart(players, i, j)
}

/// The demon rows hold gap-free positions that fit their column and ids
/// below `next_id`.
pub open spec fn demons_acceptable(demons: Seq<DemonRow>, next_id: i32) -> bool {
    &&& demons.len() <= i16::MAX
    &&& gap_free(demons)
    &&& forall|i: int| 0 <= i < demons.len() ==> #[trigger] demons[i].id < next_id
}

/// Checks that no two positions of `demons` repeat and that all lie in
/// `1..=demons.len()`.
fn check_gap_free(demons: &Vec<DemonRow>) -> (r: bool)
    ensures
        r == gap_free(demons@),
{
    let n = demons.len();
    let mut seen: Vec<bool> = Vec::new();
    let mut k: usize = 0;
    while k < n
        invariant
            k <= n == demons@.len(),
            seen@.len() == k,
            forall|j: int| 0 <= j < k ==> !seen@[j],
        decreases n - k,
    {
        seen.push(false);
        k += 1;
    }
    let mut i: usize = 0;
    while i < n
        invariant
            i <= n == demons@.len(),
            seen@.len() == n,
            forall|a: int| 0 <= a < i ==> 1 <= #[trigger] demons@[a].position <= n,
            forall|a: int, b: int|
                0 <= a < i && 0 <= b < i && a != b ==> #[trigger] demons@[a].position
                    != #[trigger] demons@[b].position,
            forall|p: int|
                0 <= p < n ==> (#[trigger] seen@[p] <==> exists|a: int|
                    0 <= a < i && demons@[a].position == p + 1),
        decreases n - i,
    {
        let p = demons[i].position;
        if p < 1 || (p - 1) as usize >= n {
            return false;
        }
        let slot = (p - 1) as usize;
        if seen[slot] {
            proof {
                let a = choose|a: int| 0 <= a < i && demons@[a].position == p;
                assert(demons@[a].position == demons@[i as int].position);
            }
            return false;
        }
        proof {
            assert forall|b: int| 0 <= b < i implies demons@[b].position != p by {
                if demons@[b].position == p {
                    assert(seen@[slot as int]);
                }
            }
        }
        seen.set(slot, true);
        i += 1;
    }
    true
}

/// Stores each of `players` under its normalised name.
fn player_rows(players: &Vec<(i32, String)>) -> (r: Vec<PlayerRow>)
    ensures
        r@.len() == players@.len(),
        forall|i: int|
            0 <= i < players@.len() ==> (#[trigger] r@[i]).id == players@[i].0 && r@[i].name
                == players@[i].1 && r@[i].key@ == lower_of(players@[i].1@),
{
    let mut rows: Vec<PlayerRow> = Vec::new();
    let mut i: usize = 0;
    while i < players.len()
        invariant
            i <= players@.len(),
            rows@.len() == i,
            forall|k: int|
                0 <= k < i ==> (#[trigger] rows@[k]).id == players@[k].0 && rows@[k].name
                    == players@[k].1 && rows@[k].key@ == lower_of(players@[k].1@),
        decreases players@.len() - i,
    {
        let (id, name) = (players[i].0, players[i].1.clone());
        let key = fold_case(name.as_str());
        rows.push(PlayerRow { id, name, key });
        i += 1;
    }
    rows
}

impl Transaction {
    /// The view of storage that holds `demons` and `players`, each player
    /// stored under its normalised name, with no creator links yet; `None`
    /// where the rows break an invariant of storage.
    pub fn from_rows(
        demons: Vec<DemonRow>,
        players: Vec<(i32, String)>,
        next_demon_id: i32,
        next_player_id: i32,
    ) -> (r: Option<Transaction>)
        ensures
            r is Some <==> demons_acceptable(demons@, next_demon_id) && players_acceptable(
                players@,
                next_player_id,
            ),
            r matches Some(t) ==> {
                &&& t.wf()
                &&& t.demons@ == demons@
                &&& t.players@.len() == players@.len()
                &&& forall|i: int|
                    0 <= i < players@.len() ==> (#[trigger] t.players@[i]).id == players@[i].0
                        && t.players@[i].name == players@[i].1
                &&& t.creators@.len() == 0
                &&& t.next_demon_id == next_demon_id
                &&& t.next_player_id == next_player_id
            },
    {
        if demons.len() > i16::MAX as usize || !check_gap_free(&demons) {
            return None;
        }
        let mut i: usize = 0;
        while i < demons.len()
            invariant
                i <= demons@.len(),
                forall|k: int| 0 <= k < i ==> #[trigger] demons@[k].id < next_demon_id,
            decreases demons@.len() - i,
        {
            if demons[i].id >= next_demon_id {
                return None;
            }
            i += 1;
        }
        let rows = player_rows(&players);
        let n = rows.len();
        let mut i: usize = 0;
        while i < n
            invariant
                i <= n == rows@.len() == players@.len(),
                forall|k: int|
                    0 <= k < players@.len() ==> (#[trigger] rows@[k]).id == players@[k].0 && rows@[k].name
                        == players@[k].1 && rows@[k].key@ == lower_of(players@[k].1@),
                forall|a: int| 0 <= a < i ==> #[trigger] players@[a].0 < next_player_id,
                forall|a: int, b: int| 0 <= a < i && 0 <= b < n && a != b ==> #[trigger] apart(players@, a, b),
            decreases n - i,
        {
            if rows[i].id >= next_player_id {
                return None;
            }
            let mut j: usize = 0;
            while j < n
                invariant
                    i < n == rows@.len() == players@.len(),
                    j <= n,
                    forall|k: int|
                        0 <= k < players@.len() ==> (#[trigger] rows@[k]).id == players@[k].0
                            && rows@[k].name == players@[k].1 && rows@[k].key@ == lower_of(
                            players@[k].1@,
                        ),
                    forall|b: int| 0 <= b < j && b != i ==> #[trigger] apart(players@, i as int, b),
                decreases n - j,
            {
                proof {
                    assert(rows@[j as int].key@ == lower_of(players@[j as int].1@));
                    assert(rows@[i as int].key@ == lower_of(players@[i as int].1@));
                }
                if j != i && (rows[j].key == rows[i].key || rows[j].id == rows[i].id) {
                    assert(!apart(players@, i as int, j as int));
                    return None;
                }
                assert(j != i ==> apart(players@, i as int, j as int));
                j += 1;
            }
            proof {
                assert forall|a: int, b: int|
                    0 <= a < i + 1 && 0 <= b < n && a != b implies #[trigger] apart(players@, a, b) by {
                    if a == i {
                        assert(b < j);
                    }
                }
            }
            i += 1;
        }
        proof {
            assert forall|a: int, b: int|
                0 <= a < n && 0 <= b < n && a != b implies #[trigger] rows@[a].key@ != #[trigger] rows@[b].key@
                && rows@[a].id != rows@[b].id by {
                assert(apart(players@, a, b));
            }
        }
        Some(Transaction { demons, players: rows, creators: Vec::new(), next_demon_id, next_player_id })
    }
}

} // verus!
