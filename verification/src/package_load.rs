//! Reading a level back out of package chunks: the integer part of it. Trigger and enemy
//! records carry a kind byte; a kind the game does not know makes the package unreadable.
use vstd::prelude::*;

use crate::chunk::{WorldChunk, WorldChunkModel};
use crate::decimal::{format_u64, spec_format_int};
use crate::error::{LevelPackageError, PackageResult, invalid_data_string};
use crate::level::LevelTriggerKind;
use crate::strutil::push_str;

verus! {

/// The message for an unknown kind byte of a record of `what` in chunk `chunk_id`.
pub open spec fn kind_message(what: Seq<char>, kind: int, chunk_id: int) -> Seq<char> {
    "unsupported "@ + what + " kind "@ + spec_format_int(kind) + " in chunk "@ + spec_format_int(
        chunk_id,
    )
}

fn kind_error(what: &str, kind: u8, chunk_id: u32) -> (e: LevelPackageError)
    ensures
        e matches LevelPackageError::InvalidData(m) && m@ == kind_message(what@, kind as int, chunk_id as int),
{
    let mut m = "unsupported ".to_string();
    push_str(&mut m, what);
    push_str(&mut m, " kind ");
    let k = format_u64(kind as u64);
    push_str(&mut m, k.as_str());
    push_str(&mut m, " in chunk ");
    let c = format_u64(chunk_id as u64);
    push_str(&mut m, c.as_str());
    invalid_data_string(m)
}

/// The trigger a record describes: 0 level start, 1 level end, 2 enemy spawn (its enemy id
/// at least 1); no trigger for another kind.
pub open spec fn spec_loaded_trigger(kind: u8, enemy_id: u16) -> Option<LevelTriggerKind> {
    if kind == 0 {
        Some(LevelTriggerKind::LevelStart)
    } else if kind == 1 {
        Some(LevelTriggerKind::LevelEnd)
    } else if kind == 2 {
        Some(LevelTriggerKind::EnemySpawn { enemy_id: if enemy_id < 1 { 1 } else { enemy_id } })
    } else {
        None
    }
}

/// The spawn id and wave of the enemy a record describes: kind 0 is a Filth, which waits for
/// its wave (its id at least 1) when the wave is above zero and is there from the start
/// (id and wave zero) otherwise; no enemy for another kind.
pub open spec fn spec_loaded_enemy(kind: u8, spawn_id: u16, spawn_wave: u16) -> Option<(u16, u16)> {
    if kind != 0 {
        None
    } else if spawn_wave > 0 {
        Some((if spawn_id < 1 { 1 } else { spawn_id }, spawn_wave))
    } else {
        Some((0, 0))
    }
}

/// The trigger of a record of chunk `chunk_id`.
pub fn loaded_trigger(kind: u8, enemy_id: u16, chunk_id: u32) -> (res: PackageResult<LevelTriggerKind>)
    ensures
        match spec_loaded_trigger(kind, enemy_id) {
            Some(k) => res == Ok::<LevelTriggerKind, LevelPackageError>(k),
            None => res matches Err(LevelPackageError::InvalidData(m)) && m@ == kind_message(
                "trigger"@,
                kind as int,
                chunk_id as int,
            ),
        },
{
    if kind == 0 {
        Ok(LevelTriggerKind::LevelStart)
    } else if kind == 1 {
        Ok(LevelTriggerKind::LevelEnd)
    } else if kind == 2 {
        Ok(LevelTriggerKind::EnemySpawn { enemy_id: if enemy_id < 1 { 1 } else { enemy_id } })
    } else {
        Err(kind_error("trigger", kind, chunk_id))
    }
}

/// The spawn id and wave of the enemy of a record of chunk `chunk_id`.
pub fn loaded_enemy(kind: u8, spawn_id: u16, spawn_wave: u16, chunk_id: u32) -> (res: PackageResult<(u16, u16)>)
    ensures
        match spec_loaded_enemy(kind, spawn_id, spawn_wave) {
            Some(e) => res == Ok::<(u16, u16), LevelPackageError>(e),
            None => res matches Err(LevelPackageError::InvalidData(m)) && m@ == kind_message(
                "enemy"@,
                kind as int,
                chunk_id as int,
            ),
        },
{
    if kind != 0 {
        Err(kind_error("enemy", kind, chunk_id))
    } else if spawn_wave > 0 {
        Ok((if spawn_id < 1 { 1 } else { spawn_id }, spawn_wave))
    } else {
        Ok((0, 0))
    }
}

/// The message for the first of the first `n` triggers of `c` whose kind is unknown.
pub open spec fn first_bad_trigger(c: WorldChunkModel, n: nat) -> Option<Seq<char>>
    decreases n,
{
    if n == 0 {
        None
    } else {
        match first_bad_trigger(c, (n - 1) as nat) {
            Some(m) => Some(m),
            None => if c.triggers.kind[n - 1] > 2 {
                Some(kind_message("trigger"@, c.triggers.kind[n - 1] as int, c.chunk_id as int))
            } else {
                None
            },
        }
    }
}

/// The message for the first of the first `n` enemies of `c` whose kind is unknown.
pub open spec fn first_bad_enemy(c: WorldChunkModel, n: nat) -> Option<Seq<char>>
    decreases n,
{
    if n == 0 {
        None
    } else {
        match first_bad_enemy(c, (n - 1) as nat) {
            Some(m) => Some(m),
            None => if c.enemy_spawns.kind[n - 1] != 0 {
                Some(kind_message("enemy"@, c.enemy_spawns.kind[n - 1] as int, c.chunk_id as int))
            } else {
                None
            },
        }
    }
}

/// The first unknown kind of a chunk: its triggers are read before its enemies.
pub open spec fn chunk_kind_error(c: WorldChunkModel) -> Option<Seq<char>> {
    match first_bad_trigger(c, c.triggers.rects.x.len()) {
        Some(m) => Some(m),
        None => first_bad_enemy(c, c.enemy_spawns.x.len()),
    }
}

/// The first unknown kind of a package, its chunks read in order.
pub open spec fn package_kind_error(cs: Seq<WorldChunk>) -> Option<Seq<char>>
    decreases cs.len(),
{
    if cs.len() == 0 {
        None
    } else {
        match package_kind_error(cs.drop_last()) {
            Some(m) => Some(m),
            None => chunk_kind_error(cs.last()@),
        }
    }
}

/// The trigger and enemy arrays that reading a level uses hold an entry for every record.
pub open spec fn kinds_readable(c: WorldChunkModel) -> bool {
    &&& c.triggers.kind.len() >= c.triggers.rects.x.len()
    &&& c.enemy_spawns.kind.len() >= c.enemy_spawns.x.len()
}

fn check_chunk_kinds(c: &WorldChunk) -> (res: PackageResult<()>)
    requires
        kinds_readable(c@),
    ensures
        match chunk_kind_error(c@) {
            None => res is Ok,
            Some(m) => res matches Err(LevelPackageError::InvalidData(e)) && e@ == m,
        },
{
    let n = c.triggers.rects.x.len();
    let mut i: usize = 0;
    while i < n
        invariant
            n == c@.triggers.rects.x.len(),
            kinds_readable(c@),
            i <= n,
            first_bad_trigger(c@, i as nat) is None,
        decreases n - i,
    {
        let k = c.triggers.kind[i];
        if k > 2 {
            assert(first_bad_trigger(c@, (i + 1) as nat) is Some);
            proof {
                lemma_bad_trigger_stays(c@, (i + 1) as nat, n as nat);
            }
            return Err(kind_error("trigger", k, c.chunk_id));
        }
        i = i + 1;
    }
    let m = c.enemy_spawns.x.len();
    let mut j: usize = 0;
    while j < m
        invariant
            m == c@.enemy_spawns.x.len(),
            n == c@.triggers.rects.x.len(),
            kinds_readable(c@),
            j <= m,
            first_bad_trigger(c@, n as nat) is None,
            first_bad_enemy(c@, j as nat) is None,
        decreases m - j,
    {
        let k = c.enemy_spawns.kind[j];
        if k != 0 {
            proof {
                lemma_bad_enemy_stays(c@, (j + 1) as nat, m as nat);
            }
            return Err(kind_error("enemy", k, c.chunk_id));
        }
        j = j + 1;
    }
    Ok(())
}

proof fn lemma_bad_trigger_stays(c: WorldChunkModel, a: nat, b: nat)
    requires
        a <= b,
        first_bad_trigger(c, a) is Some,
    ensures
        first_bad_trigger(c, b) == first_bad_trigger(c, a),
    decreases b - a,
{
    if a < b {
        lemma_bad_trigger_stays(c, a, (b - 1) as nat);
    }
}

proof fn lemma_bad_enemy_stays(c: WorldChunkModel, a: nat, b: nat)
    requires
        a <= b,
        first_bad_enemy(c, a) is Some,
    ensures
        first_bad_enemy(c, b) == first_bad_enemy(c, a),
    decreases b - a,
{
    if a < b {
        lemma_bad_enemy_stays(c, a, (b - 1) as nat);
    }
}

proof fn lemma_package_error_stays(cs: Seq<WorldChunk>, a: int)
    requires
        0 <= a <= cs.len(),
        package_kind_error(cs.take(a)) is Some,
    ensures
        package_kind_error(cs) == package_kind_error(cs.take(a)),
    decreases cs.len() - a,
{
    if a < cs.len() {
        assert(cs.take(a + 1).drop_last() =~= cs.take(a));
        lemma_package_error_stays(cs, a + 1);
    } else {
        assert(cs.take(a) =~= cs);
    }
}

/// Checks the kind byte of every trigger and enemy record of the package's chunks, in the
/// order a level is read from them; the first unknown one makes the package unreadable.
pub fn check_package_kinds(chunks: &[WorldChunk]) -> (res: PackageResult<()>)
    requires
        forall|i: int| 0 <= i < chunks@.len() ==> kinds_readable(#[trigger] chunks@[i]@),
    ensures
        match package_kind_error(chunks@) {
            None => res is Ok,
            Some(m) => res matches Err(LevelPackageError::InvalidData(e)) && e@ == m,
        },
{
    let mut i: usize = 0;
    assert(chunks@.take(0) =~= Seq::<WorldChunk>::empty());
    while i < chunks.len()
        invariant
            i <= chunks@.len(),
            forall|k: int| 0 <= k < chunks@.len() ==> kinds_readable(#[trigger] chunks@[k]@),
            package_kind_error(chunks@.take(i as int)) is None,
        decreases chunks@.len() - i,
    {
        let ghost t = chunks@.take(i + 1);
        assert(t.drop_last() =~= chunks@.take(i as int));
        assert(t.last() == chunks@[i as int]);
        let r = check_chunk_kinds(&chunks[i]);
        match r {
            Ok(()) => {},
            Err(e) => {
                proof {
                    lemma_package_error_stays(chunks@, i + 1);
                }
                return Err(e);
            },
        }
        i = i + 1;
    }
    assert(chunks@.take(i as int) =~= chunks@);
    Ok(())
}

} // verus!
