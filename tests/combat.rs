use arena_core::archetypes::{enemy, player};
use arena_core::combat::INVINCIBILITY_NS;
use arena_core::events::CollisionEvent;
use arena_core::projectile::Weapon;
use arena_core::world::{Health, World};

const FRAME: u64 = 100_000_000;

fn arena() -> World {
    let mut w = World::new();
    assert!(w.spawn(player(1)));
    assert!(w.spawn(enemy(2)));
    w
}

#[test]
fn overlap_opens_window_before_damage() {
    let mut w = arena();
    let events = vec![CollisionEvent::new(2, 1)];
    for _ in 0..3 {
        let deaths = w.collision_damage(&events, FRAME);
        assert!(deaths.is_empty());
        assert_eq!(w.health_of(1), Some(Health { max: 100, current: 100 }));
    }
    assert!(w.is_debounced(1, 2));
    // Two more frames bring the window to 400 ms: still no damage.
    for _ in 0..2 {
        w.collision_damage(&events, FRAME);
        assert_eq!(w.health_of(1).unwrap().current, 100);
    }
    // The frame on which 500 ms have passed since the first hit lands one hit.
    w.collision_damage(&events, FRAME);
    assert_eq!(w.health_of(1).unwrap().current, 99);
    assert!(!w.is_debounced(1, 2));
    // The next contact starts a new window.
    w.collision_damage(&events, FRAME);
    assert_eq!(w.health_of(1).unwrap().current, 99);
    assert!(w.is_debounced(1, 2));
}

#[test]
fn player_keeps_full_health_for_three_frames_then_loses_one() {
    let mut w = arena();
    let events = vec![CollisionEvent::new(2, 1)];
    let frame = 16_000_000;
    let mut elapsed: u64 = 0;
    for frame_no in 0..40 {
        w.resolve_frame(&events, frame);
        if frame_no > 0 {
            elapsed += frame;
        }
        let hp = w.health_of(1).unwrap().current;
        if elapsed < INVINCIBILITY_NS {
            assert_eq!(hp, 100, "frame {}", frame_no);
        } else {
            assert_eq!(hp, 99, "frame {}", frame_no);
            return;
        }
    }
    panic!("the window never elapsed");
}

#[test]
fn projectile_does_not_hurt_its_owner() {
    let mut w = arena();
    let shot = Weapon::primary().projectile(7, 1);
    assert!(w.spawn(shot));
    let events = vec![CollisionEvent::new(7, 1)];
    for _ in 0..10 {
        w.collision_damage(&events, INVINCIBILITY_NS);
    }
    assert_eq!(w.health_of(1).unwrap().current, 100);
    assert!(!w.is_debounced(1, 7));
}

#[test]
fn lethal_hit_emits_one_death_per_pass() {
    let mut w = arena();
    let mut second = enemy(3);
    second.damage = Some(5);
    assert!(w.spawn(second));
    let mut p = player(4);
    p.health = Some(Health { max: 100, current: 1 });
    assert!(w.spawn(p));
    let events = vec![CollisionEvent::new(2, 4), CollisionEvent::new(3, 4)];
    assert!(w.collision_damage(&events, 1).is_empty());
    let deaths = w.collision_damage(&events, INVINCIBILITY_NS);
    assert_eq!(deaths.len(), 1);
    assert_eq!(deaths[0].entity, 4);
    assert_eq!(w.health_of(4).unwrap().current, 0);
}

#[test]
fn damage_floors_at_zero_and_clamps_to_max() {
    assert_eq!(Health::new(10, 3).take_damage(5), Health { max: 10, current: 0 });
    assert_eq!(Health::new(10, 7).take_damage(2), Health { max: 10, current: 5 });
    assert_eq!(Health::new(4, 9).take_damage(0), Health { max: 4, current: 4 });
}

#[test]
fn unknown_entities_in_events_are_ignored() {
    let mut w = arena();
    let events = vec![CollisionEvent::new(99, 1), CollisionEvent::new(2, 98)];
    assert!(w.collision_damage(&events, FRAME).is_empty());
    assert!(!w.is_debounced(1, 99));
    assert_eq!(w.health_of(1).unwrap().current, 100);
}
