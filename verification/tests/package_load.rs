use aperture_kill::chunk::WorldChunk;
use aperture_kill::error::LevelPackageError;
use aperture_kill::level::LevelTriggerKind;
use aperture_kill::package_load::{check_package_kinds, loaded_enemy, loaded_trigger};

fn message(r: Result<impl std::fmt::Debug, LevelPackageError>) -> String {
    match r {
        Err(LevelPackageError::InvalidData(m)) => m,
        other => panic!("expected invalid data, got {other:?}"),
    }
}

#[test]
fn trigger_kinds_read_back() {
    assert_eq!(loaded_trigger(0, 9, 1).unwrap(), LevelTriggerKind::LevelStart);
    assert_eq!(loaded_trigger(1, 9, 1).unwrap(), LevelTriggerKind::LevelEnd);
    assert_eq!(loaded_trigger(2, 0, 1).unwrap(), LevelTriggerKind::EnemySpawn { enemy_id: 1 });
    assert_eq!(loaded_trigger(2, 5, 1).unwrap(), LevelTriggerKind::EnemySpawn { enemy_id: 5 });
    assert_eq!(message(loaded_trigger(3, 0, 12)), "unsupported trigger kind 3 in chunk 12");
}

#[test]
fn enemy_kinds_read_back() {
    assert_eq!(loaded_enemy(0, 0, 2, 1).unwrap(), (1, 2));
    assert_eq!(loaded_enemy(0, 4, 0, 1).unwrap(), (0, 0));
    assert_eq!(message(loaded_enemy(1, 0, 0, 7)), "unsupported enemy kind 1 in chunk 7");
}

#[test]
fn package_kinds_are_checked_in_reading_order() {
    let mut a = WorldChunk::default();
    a.chunk_id = 4;
    a.enemy_spawns.x.push(0);
    a.enemy_spawns.kind.push(9);
    let mut b = WorldChunk::default();
    b.chunk_id = 5;
    b.triggers.rects.x.push(0);
    b.triggers.kind.push(200);
    let good = WorldChunk::default();
    assert!(check_package_kinds(&[good.clone()]).is_ok());
    assert_eq!(message(check_package_kinds(&[good.clone(), a.clone(), b.clone()])), "unsupported enemy kind 9 in chunk 4");
    assert_eq!(message(check_package_kinds(&[b, a])), "unsupported trigger kind 200 in chunk 5");
}
