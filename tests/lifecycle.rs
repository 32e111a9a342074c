use arena_core::archetypes::{enemy, exp_pickup, player};
use arena_core::cleanup::LootDrop;
use arena_core::events::{CollisionEvent, DeathEvent};
use arena_core::projectile::Weapon;
use arena_core::spawner::EnemySpawnConfig;
use arena_core::timer::Timer;
use arena_core::world::World;

const FIVE_S: u64 = 5_000_000_000;

#[test]
fn spawner_fills_a_deficit_of_thirty() {
    let mut cfg = EnemySpawnConfig::new(Timer::new(FIVE_S, true), 150);
    assert_eq!(cfg.spawn_new_enemies(FIVE_S, 120), 30);
}

#[test]
fn spawner_caps_a_batch_at_thirty() {
    let mut cfg = EnemySpawnConfig::new(Timer::new(FIVE_S, true), 150);
    assert_eq!(cfg.spawn_new_enemies(FIVE_S, 0), 30);
    assert_eq!(cfg.spawn_new_enemies(FIVE_S, 145), 5);
    assert_eq!(cfg.spawn_new_enemies(FIVE_S, 150), 0);
    assert_eq!(cfg.spawn_new_enemies(FIVE_S, 200), 0);
}

#[test]
fn spawner_waits_for_its_timer() {
    let mut cfg = EnemySpawnConfig::new(Timer::new(FIVE_S, true), 150);
    assert_eq!(cfg.spawn_new_enemies(FIVE_S - 1, 0), 0);
    assert_eq!(cfg.spawn_new_enemies(1, 0), 30);
    assert_eq!(cfg.spawn_new_enemies(1, 0), 0);
}

#[test]
fn enemies_are_counted() {
    let mut w = World::new();
    assert!(w.spawn(player(1)));
    assert!(w.spawn(enemy(2)));
    assert!(w.spawn(enemy(3)));
    assert!(!w.spawn(enemy(3)));
    assert_eq!(w.enemy_count(), 2);
}

#[test]
fn repeated_deaths_despawn_and_drop_once() {
    let mut w = World::new();
    assert!(w.spawn(player(1)));
    assert!(w.spawn(enemy(2)));
    assert!(w.spawn(enemy(3)));
    // The player holds windows for both enemies.
    w.collision_damage(&vec![CollisionEvent::new(2, 1), CollisionEvent::new(3, 1)], 1);
    assert!(w.is_debounced(1, 2));
    let deaths = vec![DeathEvent::new(2), DeathEvent::new(2), DeathEvent::new(2)];
    let report = w.cleanup(&deaths);
    assert_eq!(report.loot, vec![LootDrop { entity: 2, amount: 1 }]);
    assert_eq!(report.despawned, vec![2]);
    assert!(!report.player_died);
    assert!(!w.contains(2));
    assert!(!w.is_debounced(1, 2));
    assert!(w.is_debounced(1, 3));
}

#[test]
fn player_death_is_reported() {
    let mut w = World::new();
    assert!(w.spawn(player(1)));
    let report = w.cleanup(&vec![DeathEvent::new(1), DeathEvent::new(1)]);
    assert!(report.player_died);
    assert!(report.loot.is_empty());
    assert_eq!(report.despawned, vec![1]);
}

#[test]
fn death_of_unknown_entity_changes_nothing() {
    let mut w = World::new();
    assert!(w.spawn(player(1)));
    let report = w.cleanup(&vec![DeathEvent::new(42)]);
    assert!(report.despawned.is_empty());
    assert!(w.contains(1));
}

#[test]
fn pickup_feeds_the_player_and_disappears() {
    let mut w = World::new();
    assert!(w.spawn(player(1)));
    assert!(w.spawn(exp_pickup(5, 7)));
    let report = w.resolve_frame(&vec![CollisionEvent::new(1, 5)], 16_000_000);
    assert_eq!(w.experience_of(1), Some(7));
    assert_eq!(report.despawned, vec![5]);
}

#[test]
fn pickup_running_into_the_player_gives_nothing() {
    let mut w = World::new();
    assert!(w.spawn(player(1)));
    assert!(w.spawn(exp_pickup(5, 7)));
    assert!(w.exp_pickup_collision(&vec![CollisionEvent::new(5, 1)]).is_empty());
    assert_eq!(w.experience_of(1), Some(0));
}

#[test]
fn experience_saturates() {
    let mut w = World::new();
    let mut p = player(1);
    p.experience = Some(u32::MAX - 1);
    assert!(w.spawn(p));
    assert!(w.spawn(exp_pickup(5, 7)));
    w.exp_pickup_collision(&vec![CollisionEvent::new(1, 5)]);
    assert_eq!(w.experience_of(1), Some(u32::MAX));
}

#[test]
fn first_contact_uses_projectile_without_damage() {
    let mut w = World::new();
    assert!(w.spawn(player(1)));
    assert!(w.spawn(enemy(2)));
    assert!(w.spawn(Weapon::primary().projectile(9, 1)));
    let report = w.resolve_frame(&vec![CollisionEvent::new(9, 2)], 16_000_000);
    assert_eq!(report.despawned, vec![9]);
    assert_eq!(w.health_of(2).unwrap().current, 1);
}

#[test]
fn killed_enemy_leaves_loot() {
    let mut w = World::new();
    assert!(w.spawn(player(1)));
    assert!(w.spawn(enemy(2)));
    assert!(w.spawn(Weapon::bouncer().projectile(9, 1)));
    let events = vec![CollisionEvent::new(9, 2)];
    let first = w.resolve_frame(&events, 16_000_000);
    assert!(first.despawned.is_empty());
    let second = w.resolve_frame(&events, 500_000_000);
    assert_eq!(second.loot, vec![LootDrop { entity: 2, amount: 1 }]);
    assert_eq!(second.despawned, vec![2]);
    assert!(w.contains(9));
    assert_eq!(w.enemy_count(), 0);
}
