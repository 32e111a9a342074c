use arena_core::archetypes::{enemy, player};
use arena_core::events::CollisionEvent;
use arena_core::projectile::{upgrade_player_bouncer, Weapon, PIERCING};
use arena_core::world::World;

fn field_of_five() -> World {
    let mut w = World::new();
    assert!(w.spawn(player(1)));
    for id in 20..25 {
        assert!(w.spawn(enemy(id)));
    }
    w
}

fn hits(bullet: u64) -> Vec<CollisionEvent> {
    (20..25).map(|id| CollisionEvent::new(bullet, id)).collect()
}

#[test]
fn piercing_projectile_survives_five_obstacles() {
    let mut w = field_of_five();
    assert!(w.spawn(Weapon::bouncer().projectile(10, 1)));
    let report = w.resolve_frame(&hits(10), 16_000_000);
    assert!(report.despawned.is_empty());
    assert!(w.contains(10));
    assert_eq!(w.punchthrough_of(10), Some(PIERCING));
}

#[test]
fn standard_projectile_dies_on_first_hit() {
    let mut w = field_of_five();
    assert!(w.spawn(Weapon::primary().projectile(11, 1)));
    let deaths = w.bullet_collision(&hits(11));
    assert_eq!(deaths.len(), 1);
    assert_eq!(deaths[0].entity, 11);
    assert_eq!(w.punchthrough_of(11), Some(0));
}

#[test]
fn standard_projectile_is_despawned_once() {
    let mut w = field_of_five();
    assert!(w.spawn(Weapon::primary().projectile(11, 1)));
    let report = w.resolve_frame(&hits(11), 16_000_000);
    assert_eq!(report.despawned, vec![11]);
    assert!(!w.contains(11));
}

#[test]
fn budget_counts_down_and_stops_at_zero() {
    let mut w = field_of_five();
    let mut shot = Weapon::primary().projectile(12, 1);
    shot.punchthrough = Some(3);
    assert!(w.spawn(shot));
    let deaths = w.bullet_collision(&hits(12));
    assert_eq!(deaths.len(), 1);
    assert_eq!(w.punchthrough_of(12), Some(0));
    assert!(w.bullet_collision(&hits(12)).is_empty());
    assert_eq!(w.punchthrough_of(12), Some(0));
}

#[test]
fn player_and_projectiles_do_not_use_up_budget() {
    let mut w = field_of_five();
    assert!(w.spawn(Weapon::primary().projectile(13, 1)));
    assert!(w.spawn(Weapon::primary().projectile(14, 1)));
    let events = vec![CollisionEvent::new(13, 1), CollisionEvent::new(13, 14)];
    assert!(w.bullet_collision(&events).is_empty());
    assert_eq!(w.punchthrough_of(13), Some(1));
}

#[test]
fn projectile_expires_after_its_lifetime() {
    let mut w = field_of_five();
    assert!(w.spawn(Weapon::primary().projectile(15, 1)));
    assert!(w.check_lifetimes(600_000_000).is_empty());
    let deaths = w.check_lifetimes(400_000_000);
    assert_eq!(deaths.len(), 1);
    assert_eq!(deaths[0].entity, 15);
}

#[test]
fn weapon_fires_on_cooldown_with_a_target() {
    let mut gun = Weapon::primary();
    assert!(!gun.shoot(200_000_000, true));
    assert!(gun.shoot(100_000_000, true));
    assert_eq!(gun.cooldown.elapsed, 0);
    assert!(!gun.shoot(300_000_000, false));
    assert!(gun.shoot(350_000_000, true));
    assert_eq!(gun.cooldown.elapsed, 50_000_000);
}

#[test]
fn bouncer_unlocks_above_one_hundred_experience() {
    assert!(!upgrade_player_bouncer(100, false));
    assert!(upgrade_player_bouncer(101, false));
    assert!(!upgrade_player_bouncer(500, true));
}
