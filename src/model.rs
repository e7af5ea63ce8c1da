//! The values that the list hands back to its callers.
use vstd::prelude::*;

verus! {

/// A named participant: publisher, verifier or creator of demons.
pub struct Player {
    pub id: i32,
    /// The name with the casing of its first reference.
    pub name: String,
}

/// What identifies a demon and its place in the list.
pub struct MinimalDemon {
    pub id: i32,
    /// 1-based rank, unique within the list.
    pub position: i16,
    pub name: String,
}

/// A demon with everything stored about it.
pub struct Demon {
    pub base: MinimalDemon,
    /// The percentage a record needs to be accepted.
    pub requirement: i16,
    pub fps: Option<String>,
    pub video: Option<String>,
    pub publisher: Player,
    pub verifier: Player,
    pub level_id: Option<u64>,
    pub hidden: bool,
}

/// A record on a demon, as it appears beside the demon.
pub struct Record {
    pub id: i32,
    pub progress: i16,
    pub video: Option<String>,
    pub player: Player,
}

/// A demon bundled with its creators and records.
pub struct FullDemon {
    pub demon: Demon,
    pub creators: Vec<Player>,
    pub records: Vec<Record>,
}

} // verus!
