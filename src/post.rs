//! Adding a demon to the list from a submission.
use crate::error::{CoreError, StorageError, ValidationError};
use crate::model::{Demon, FullDemon, MinimalDemon, Player};
use crate::names::lower_of;
use crate::player::{extends, lemma_stored_kept};
use crate::store::{lemma_open_then_place, opened, stored_as, CreatorRow, DemonRow, Transaction};
use vstd::prelude::*;

verus! {

/// A request to add a demon to the list.
pub struct PostDemon {
    pub name: String,
    /// The position the demon is to take.
    pub position: i16,
    pub fps: Option<String>,
    pub verifier: String,
    pub publisher: String,
    /// The names of the creators, in the order they were given.
    pub creators: Vec<String>,
    /// The video link as submitted.
    pub video: Option<String>,
}

/// The percentage that records on a new demon need.
pub const NEW_DEMON_REQUIREMENT: i16 = 100;

/// The video that a demon is stored with, given what the URL validator said
/// of the submitted link.
pub open spec fn stored_video(video: Option<Result<String, ()>>) -> Option<String> {
    match video {
        Some(Ok(v)) => Some(v),
        _ => None,
    }
}

/// `key` is the normalised form of one of the names that `data` references.
pub open spec fn submitted_key(data: PostDemon, key: Seq<char>) -> bool {
    ||| key == lower_of(data.publisher@)
    ||| key == lower_of(data.verifier@)
    ||| exists|k: int| 0 <= k < data.creators@.len() && key == lower_of(#[trigger] data.creators@[k]@)
}

/// Storage has ids left for the demon and for every player that `data` may
/// add.
pub open spec fn ids_left(t: Transaction, data: PostDemon) -> bool {
    &&& t.next_demon_id < i32::MAX
    &&& t.next_player_id + 2 + data.creators@.len() < i32::MAX
}

/// The submission passes validation against the list of `t`.
pub open spec fn acceptable(t: Transaction, data: PostDemon, video: Option<Result<String, ()>>) -> bool {
    &&& !(video matches Some(Err(_)))
    &&& 1 <= data.position <= t.demons@.len() + 1
}

/// The row that a submission is stored as.
pub open spec fn submitted_row(
    data: PostDemon,
    id: i32,
    video: Option<String>,
    verifier: i32,
    publisher: i32,
) -> DemonRow {
    DemonRow {
        id,
        name: data.name,
        position: data.position,
        requirement: NEW_DEMON_REQUIREMENT,
        video,
        verifier,
        publisher,
        fps: data.fps,
        hidden: false,
    }
}

fn copy_text(t: &Option<String>) -> (r: Option<String>)
    ensures
        r == *t,
{
    match t {
        Some(s) => Some(s.clone()),
        None => None,
    }
}

impl FullDemon {
    /// Adds the demon that `data` describes at its requested position,
    /// moving the demons at and below it one place down, and links its
    /// creators. `video` is what the URL validator returned for `data.video`
    /// (`Some` exactly where a link was submitted).
    ///
    /// Runs inside the caller's transaction, which it neither opens nor
    /// commits; after an error the caller rolls it back. A rejected
    /// submission changes nothing.
    pub fn create_from(
        data: PostDemon,
        video: Option<Result<String, ()>>,
        connection: &mut Transaction,
    ) -> (r: Result<FullDemon, CoreError>)
        requires
            old(connection).wf(),
            video is Some <==> data.video is Some,
        ensures
            video matches Some(Err(_)) ==> r == Err::<FullDemon, CoreError>(
                CoreError::Validation(ValidationError::InvalidVideoUrl),
            ) && *final(connection) == *old(connection),
            !(video matches Some(Err(_))) && !(1 <= data.position <= old(connection).demons@.len() + 1)
                ==> r == Err::<FullDemon, CoreError>(
                CoreError::Validation(ValidationError::PositionOutOfRange),
            ) && *final(connection) == *old(connection),
            acceptable(*old(connection), data, video) && old(connection).demons@.len() < i16::MAX
                && ids_left(*old(connection), data) ==> r is Ok,
            r matches Err(e) ==> {
                ||| e == CoreError::Validation(ValidationError::InvalidVideoUrl)
                ||| e == CoreError::Validation(ValidationError::PositionOutOfRange)
                ||| e == CoreError::Storage(StorageError::PositionOverflow) && old(
                    connection,
                ).demons@.len() == i16::MAX
                ||| e == CoreError::Storage(StorageError::IdsExhausted) && !ids_left(
                    *old(connection),
                    data,
                )
            },
            r matches Ok(full) ==> {
                let before = *old(connection);
                let after = *final(connection);
                let n = before.demons@.len();
                let id = full.demon.base.id;
                let row = submitted_row(
                    data,
                    id,
                    stored_video(video),
                    full.demon.verifier.id,
                    full.demon.publisher.id,
                );
                &&& acceptable(before, data, video)
                &&& after.wf()
                // the list grew by one, the new demon at its position and
                // everything at or below it one place down
                &&& after.demons@.len() == n + 1
                &&& forall|i: int|
                    0 <= i < n ==> #[trigger] after.demons@[i] == opened(
                        before.demons@[i],
                        data.position as int,
                    )
                &&& after.demons@[n as int] == row
                &&& forall|i: int|
                    0 <= i < after.demons@.len() && #[trigger] after.demons@[i].position
                        == data.position ==> after.demons@[i] == row
                // the demon handed back is the one stored
                &&& id == before.next_demon_id
                &&& full.demon.base == MinimalDemon {
                    id,
                    position: data.position,
                    name: data.name,
                }
                &&& full.demon.requirement == NEW_DEMON_REQUIREMENT
                &&& full.demon.fps == data.fps
                &&& full.demon.video == stored_video(video)
                &&& full.demon.level_id is None
                &&& !full.demon.hidden
                &&& full.records@.len() == 0
                // every referenced player is the one stored under its name
                &&& stored_as(after.players@, lower_of(data.publisher@), full.demon.publisher)
                &&& stored_as(after.players@, lower_of(data.verifier@), full.demon.verifier)
                &&& full.creators@.len() == data.creators@.len()
                &&& forall|k: int|
                    0 <= k < data.creators@.len() ==> stored_as(
                        after.players@,
                        lower_of(#[trigger] data.creators@[k]@),
                        full.creators@[k],
                    )
                // one creator link per submitted name, in order
                &&& after.creators@ == before.creators@ + Seq::new(
                    data.creators@.len(),
                    |k: int| CreatorRow { demon: id, creator: full.creators@[k].id },
                )
                // players are only added, and only for submitted names
                &&& extends(after.players@, before.players@)
                &&& forall|j: int|
                    before.players@.len() <= j < after.players@.len() ==> submitted_key(
                        data,
                        #[trigger] after.players@[j].key@,
                    )
            },
    {
        let ghost before = *connection;
        let stored = match video {
            Some(Ok(v)) => Some(v),
            Some(Err(())) => {
                return Err(CoreError::Validation(ValidationError::InvalidVideoUrl));
            },
            None => None,
        };
        if let Err(e) = connection.validate_position(data.position) {
            return Err(e);
        }
        let publisher = match connection.by_name_or_create(&data.publisher) {
            Ok(p) => p,
            Err(e) => {
                return Err(e);
            },
        };
        let ghost t1 = *connection;
        let verifier = match connection.by_name_or_create(&data.verifier) {
            Ok(p) => p,
            Err(e) => {
                return Err(e);
            },
        };
        let ghost t2 = *connection;
        proof {
            if stored_as(t1.players@, lower_of(data.publisher@), publisher) {
                lemma_stored_kept(t1.players@, t2.players@, lower_of(data.publisher@), publisher);
            }
        }
        if let Err(e) = connection.shift_open(data.position) {
            return Err(e);
        }
        let id = match connection.insert_demon(
            data.name.clone(),
            data.position,
            NEW_DEMON_REQUIREMENT,
            copy_text(&stored),
            verifier.id,
            publisher.id,
            copy_text(&data.fps),
            false,
        ) {
            Ok(id) => id,
            Err(e) => {
                return Err(e);
            },
        };
        proof {
            lemma_open_then_place(before.demons@, connection.demons@, data.position as int);
        }
        let demon = Demon {
            base: MinimalDemon { id, position: data.position, name: data.name },
            requirement: NEW_DEMON_REQUIREMENT,
            fps: data.fps,
            video: stored,
            publisher,
            verifier,
            level_id: None,
            hidden: false,
        };
        let ghost t4 = *connection;
        let mut creators: Vec<Player> = Vec::new();
        let n = data.creators.len();
        let mut i: usize = 0;
        while i < n
            invariant
                n == data.creators@.len(),
                i <= n,
                before == *old(connection),
                acceptable(before, data, video),
                connection.wf(),
                connection.demons == t4.demons,
                connection.next_demon_id == t4.next_demon_id,
                connection.next_player_id <= before.next_player_id + 2 + i,
                extends(connection.players@, before.players@),
                forall|j: int|
                    before.players@.len() <= j < connection.players@.len() ==> submitted_key(
                        data,
                        #[trigger] connection.players@[j].key@,
                    ),
                stored_as(connection.players@, lower_of(data.publisher@), demon.publisher),
                stored_as(connection.players@, lower_of(data.verifier@), demon.verifier),
                creators@.len() == i,
                forall|k: int|
                    0 <= k < i ==> stored_as(
                        connection.players@,
                        lower_of(#[trigger] data.creators@[k]@),
                        creators@[k],
                    ),
                connection.creators@ == t4.creators@ + Seq::new(
                    i as nat,
                    |k: int| CreatorRow { demon: id, creator: creators@[k].id },
                ),
            decreases n - i,
        {
            let ghost c0 = *connection;
            let player = match connection.by_name_or_create(&data.creators[i]) {
                Ok(p) => p,
                Err(e) => {
                    return Err(e);
                },
            };
            proof {
                let key = lower_of(data.creators@[i as int]@);
                let c1 = *connection;
                if !(c1 == c0) {
                    let last = c1.players@.len() - 1;
                    assert(c1.players@[last].key@ == key);
                    assert(stored_as(c1.players@, key, player));
                    assert(submitted_key(data, key));
                }
                lemma_stored_kept(c0.players@, c1.players@, lower_of(data.publisher@), demon.publisher);
                lemma_stored_kept(c0.players@, c1.players@, lower_of(data.verifier@), demon.verifier);
                assert forall|k: int| 0 <= k < i implies stored_as(
                    c1.players@,
                    lower_of(#[trigger] data.creators@[k]@),
                    creators@[k],
                ) by {
                    lemma_stored_kept(c0.players@, c1.players@, lower_of(data.creators@[k]@), creators@[k]);
                }
            }
            connection.insert_creator(id, player.id);
            creators.push(player);
            i += 1;
        }
        Ok(FullDemon { demon, creators, records: Vec::new() })
    }
}

} // verus!
