use ecs_game::collision_system::{check_collision, CollisionSystem};
use ecs_game::components::{
    BoundingBox, Coin, Collidable, Enemy, Entity, Health, PlayerControlled, Position, PowerKind,
    PowerUp, Score, Velocity,
};
use ecs_game::entities::{create_initial_coin, create_initial_enemy, create_player};
use ecs_game::input_system::{velocity_from_keys, PlayerInputSystem};
use ecs_game::physics_system::{can_integrate, PhysicsSystem};
use ecs_game::pipeline::tick;
use ecs_game::render_system::{RenderSystem, Visual};
use ecs_game::resources::{InputResource, Key};
use ecs_game::spawn_system::{spawn, SpawnKind, SpawnSystem};
use ecs_game::storage::Storage;
use ecs_game::world::{SimError, World};

fn boxed(world: &mut World, x: i64, y: i64, side: u32) -> Entity {
    let e = world.create_entity().unwrap();
    world.positions.insert(e, Position { x, y });
    world.bounding_boxes.insert(e, BoundingBox { width: side, height: side });
    world.collidables.insert(e, Collidable);
    e
}

fn player_at(world: &mut World, x: i64, y: i64, health: u32) -> Entity {
    let e = boxed(world, x, y, 20);
    world.velocities.insert(e, Velocity { dx: 0, dy: 0 });
    world.players.insert(e, PlayerControlled);
    world.healths.insert(e, Health { value: health });
    world.scores.insert(e, Score { value: 0 });
    e
}


#[test]
fn storage_insert_returns_previous_value() {
    let mut s: Storage<Health> = Storage::new();
    let e = Entity { id: 3 };
    assert_eq!(s.insert(e, Health { value: 5 }), None);
    assert_eq!(s.insert(e, Health { value: 7 }), Some(Health { value: 5 }));
    assert_eq!(s.get(e), Some(&Health { value: 7 }));
    assert!(s.contains(e));
    assert!(!s.contains(Entity { id: 2 }));
}

#[test]
fn storage_double_remove_is_harmless() {
    let mut s: Storage<Coin> = Storage::new();
    let e = Entity { id: 1 };
    s.insert(e, Coin);
    s.insert(Entity { id: 4 }, Coin);
    assert_eq!(s.remove(e), Some(Coin));
    assert_eq!(s.remove(e), None);
    assert_eq!(s.remove(Entity { id: 40 }), None);
    assert_eq!(s.entities(), vec![Entity { id: 4 }]);
}

#[test]
fn storage_lists_entities_by_id() {
    let mut s: Storage<Score> = Storage::new();
    s.insert(Entity { id: 5 }, Score { value: 1 });
    s.insert(Entity { id: 0 }, Score { value: 2 });
    s.insert(Entity { id: 2 }, Score { value: 3 });
    assert_eq!(s.entities(), vec![Entity { id: 0 }, Entity { id: 2 }, Entity { id: 5 }]);
}

#[test]
fn entity_ids_are_handed_out_in_order() {
    let mut world = World::new();
    let a = world.create_entity().unwrap();
    let b = world.create_entity().unwrap();
    let c = world.create_entity().unwrap();
    assert_eq!((a.id, b.id, c.id), (0, 1, 2));
    assert_eq!(world.destroy(b), Ok(()));
    assert_eq!(world.entities.live_entities(), vec![a, c]);
    let d = world.create_entity().unwrap();
    assert_eq!(d.id, 3);
}

#[test]
fn destroying_twice_is_an_invalid_entity() {
    let mut world = World::new();
    let e = player_at(&mut world, 0, 0, 100);
    assert_eq!(world.destroy(e), Ok(()));
    assert!(!world.is_alive(e));
    assert_eq!(world.positions.get(e), None);
    assert_eq!(world.healths.get(e), None);
    assert_eq!(world.destroy(e), Err(SimError::InvalidEntity));
    assert_eq!(world.destroy(Entity { id: 9 }), Err(SimError::InvalidEntity));
}

#[test]
fn overlap_is_symmetric_and_edges_do_not_count() {
    let a = Position { x: 0, y: 0 };
    let b = Position { x: 10, y: 0 };
    let c = Position { x: 5, y: 5 };
    let ten = BoundingBox { width: 10, height: 10 };
    assert!(!check_collision(&a, &ten, &b, &ten));
    assert!(!check_collision(&b, &ten, &a, &ten));
    assert!(check_collision(&a, &ten, &c, &ten));
    assert!(check_collision(&c, &ten, &a, &ten));
    let below = Position { x: 0, y: 10 };
    assert!(!check_collision(&a, &ten, &below, &ten));
    let extreme = Position { x: i64::MAX, y: i64::MAX };
    assert!(!check_collision(&a, &ten, &extreme, &ten));
}

#[test]
fn opposite_keys_cancel() {
    let v = velocity_from_keys(&vec![Key::Up, Key::Down]);
    assert_eq!(v, Velocity { dx: 0, dy: 0 });
    let v = velocity_from_keys(&vec![Key::Left, Key::Right, Key::Up]);
    assert_eq!(v, Velocity { dx: 0, dy: -1 });
    let v = velocity_from_keys(&vec![Key::Right, Key::Down, Key::Other]);
    assert_eq!(v, Velocity { dx: 1, dy: 1 });
    let v = velocity_from_keys(&vec![]);
    assert_eq!(v, Velocity { dx: 0, dy: 0 });
}

#[test]
fn movement_only_touches_player_velocity() {
    let mut world = World::new();
    let p = player_at(&mut world, 0, 0, 100);
    let other = world.create_entity().unwrap();
    world.velocities.insert(other, Velocity { dx: 3, dy: 3 });
    let input = InputResource { keys: vec![Key::Left, Key::Up] };
    PlayerInputSystem.run(&input, &mut world);
    assert_eq!(world.velocities.get(p), Some(&Velocity { dx: -1, dy: -1 }));
    assert_eq!(world.velocities.get(other), Some(&Velocity { dx: 3, dy: 3 }));
}

#[test]
fn integration_moves_by_five_times_velocity() {
    let mut world = World::new();
    let a = world.create_entity().unwrap();
    world.positions.insert(a, Position { x: 1, y: 2 });
    world.velocities.insert(a, Velocity { dx: 3, dy: -4 });
    let b = world.create_entity().unwrap();
    world.positions.insert(b, Position { x: 7, y: 8 });
    assert!(can_integrate(&world));
    PhysicsSystem.run(&mut world);
    assert_eq!(world.positions.get(a), Some(&Position { x: 16, y: -18 }));
    assert_eq!(world.positions.get(b), Some(&Position { x: 7, y: 8 }));
}

#[test]
fn integration_overflow_is_detected() {
    let mut world = World::new();
    let a = world.create_entity().unwrap();
    world.positions.insert(a, Position { x: i64::MAX - 4, y: 0 });
    world.velocities.insert(a, Velocity { dx: 1, dy: 0 });
    assert!(!can_integrate(&world));
}

#[test]
fn coin_pickup_removes_coin_and_rewards_every_score() {
    let mut world = World::new();
    let p = player_at(&mut world, 100, 100, 100);
    let coin = boxed(&mut world, 105, 105, 10);
    world.coins.insert(coin, Coin);
    let bystander = world.create_entity().unwrap();
    world.scores.insert(bystander, Score { value: 3 });
    CollisionSystem.run(&mut world);
    assert!(!world.coins.contains(coin));
    assert!(world.positions.contains(coin));
    assert_eq!(world.scores.get(p), Some(&Score { value: 10 }));
    assert_eq!(world.scores.get(bystander), Some(&Score { value: 13 }));
    assert_eq!(world.healths.get(p), Some(&Health { value: 100 }));
}

#[test]
fn score_saturates_at_max() {
    let mut world = World::new();
    let p = player_at(&mut world, 0, 0, 100);
    world.scores.insert(p, Score { value: u32::MAX - 3 });
    let coin = boxed(&mut world, 0, 0, 10);
    world.coins.insert(coin, Coin);
    CollisionSystem.run(&mut world);
    assert_eq!(world.scores.get(p), Some(&Score { value: u32::MAX }));
}

#[test]
fn enemy_contact_costs_ten_health() {
    let mut world = World::new();
    let p = player_at(&mut world, 0, 0, 100);
    let enemy = boxed(&mut world, 10, 10, 20);
    world.enemies.insert(enemy, Enemy);
    CollisionSystem.run(&mut world);
    assert_eq!(world.healths.get(p), Some(&Health { value: 90 }));
    assert!(world.enemies.contains(enemy));
}

#[test]
fn health_saturates_at_zero() {
    let mut world = World::new();
    let p = player_at(&mut world, 0, 0, 15);
    let e1 = boxed(&mut world, 5, 5, 20);
    world.enemies.insert(e1, Enemy);
    let e2 = boxed(&mut world, 1, 1, 20);
    world.enemies.insert(e2, Enemy);
    CollisionSystem.run(&mut world);
    assert_eq!(world.healths.get(p), Some(&Health { value: 0 }));
    CollisionSystem.run(&mut world);
    assert_eq!(world.healths.get(p), Some(&Health { value: 0 }));
}

#[test]
fn touching_enemy_edge_does_no_damage() {
    let mut world = World::new();
    let p = player_at(&mut world, 0, 0, 100);
    let enemy = boxed(&mut world, 20, 0, 20);
    world.enemies.insert(enemy, Enemy);
    CollisionSystem.run(&mut world);
    assert_eq!(world.healths.get(p), Some(&Health { value: 100 }));
}

#[test]
fn powerup_pickup_removes_powerup_only() {
    let mut world = World::new();
    let p = player_at(&mut world, 0, 0, 100);
    let u = boxed(&mut world, 3, 3, 10);
    world.powerups.insert(u, PowerUp { power_type: PowerKind::Speed });
    CollisionSystem.run(&mut world);
    assert!(!world.powerups.contains(u));
    assert_eq!(world.scores.get(p), Some(&Score { value: 0 }));
    assert_eq!(world.healths.get(p), Some(&Health { value: 100 }));
}

#[test]
fn spawner_rejects_zero_bounds() {
    assert_eq!(SpawnSystem::new(0, 600).err(), Some(SimError::ConfigurationError));
    assert_eq!(SpawnSystem::new(800, 0).err(), Some(SimError::ConfigurationError));
    let s = SpawnSystem::new(800, 600).unwrap();
    assert_eq!((s.coin_timer, s.enemy_timer, s.powerup_timer), (0, 0, 0));
}

#[test]
fn spawn_places_standard_components() {
    let mut world = World::new();
    let e = spawn(&mut world, SpawnKind::Enemy, 5, 7).unwrap();
    assert_eq!(world.positions.get(e), Some(&Position { x: 5, y: 7 }));
    assert_eq!(world.bounding_boxes.get(e), Some(&BoundingBox { width: 20, height: 20 }));
    assert!(world.collidables.contains(e) && world.enemies.contains(e));
    let u = spawn(&mut world, SpawnKind::PowerUp(PowerKind::Health), 1, 2).unwrap();
    assert_eq!(world.powerups.get(u), Some(&PowerUp { power_type: PowerKind::Health }));
    assert_eq!(world.bounding_boxes.get(u), Some(&BoundingBox { width: 10, height: 10 }));
}

#[test]
fn first_coin_spawns_on_tick_fifty() {
    let mut world = World::new();
    let mut spawner = SpawnSystem::new(800, 600).unwrap();
    for _ in 0..49 {
        spawner.run(&mut world).unwrap();
        assert_eq!(world.entities.live_entities().len(), 0);
    }
    assert_eq!(spawner.coin_timer, 49);
    spawner.run(&mut world).unwrap();
    assert_eq!(world.entities.live_entities().len(), 1);
    assert_eq!(world.coins.entities().len(), 1);
    assert_eq!(spawner.coin_timer, 0);
}

#[test]
fn spawn_positions_stay_inside_bounds() {
    let mut world = World::new();
    let mut spawner = SpawnSystem::new(1, 1).unwrap();
    for _ in 0..150 {
        spawner.run(&mut world).unwrap();
    }
    assert_eq!(world.coins.entities().len(), 3);
    assert_eq!(world.enemies.entities().len(), 1);
    assert_eq!(world.powerups.entities().len(), 1);
    for e in world.entities.live_entities() {
        assert_eq!(world.positions.get(e), Some(&Position { x: 0, y: 0 }));
    }
}

#[test]
fn forty_nine_idle_ticks_change_nothing_then_a_coin_appears() {
    let mut world = World::new();
    let player = create_player(&mut world).unwrap();
    let coin = create_initial_coin(&mut world).unwrap();
    let enemy = create_initial_enemy(&mut world).unwrap();
    let mut spawner = SpawnSystem::new(800, 600).unwrap();
    let input = InputResource::new();
    for _ in 0..49 {
        tick(&mut world, &input, &mut spawner).unwrap();
    }
    assert_eq!(world.positions.get(player), Some(&Position { x: 400, y: 300 }));
    assert_eq!(world.positions.get(coin), Some(&Position { x: 200, y: 200 }));
    assert_eq!(world.positions.get(enemy), Some(&Position { x: 600, y: 100 }));
    assert_eq!(world.scores.get(player), Some(&Score { value: 0 }));
    assert_eq!(world.healths.get(player), Some(&Health { value: 100 }));
    assert_eq!(world.entities.live_entities().len(), 3);
    tick(&mut world, &input, &mut spawner).unwrap();
    assert_eq!(world.entities.live_entities().len(), 4);
    assert_eq!(world.coins.entities().len(), 2);
}

#[test]
fn render_lists_players_coins_enemies_powerups() {
    let mut world = World::new();
    let _enemy = create_initial_enemy(&mut world).unwrap();
    let _coin = create_initial_coin(&mut world).unwrap();
    let _player = create_player(&mut world).unwrap();
    spawn(&mut world, SpawnKind::PowerUp(PowerKind::Speed), 9, 9).unwrap();
    let sprites = RenderSystem.run(&world);
    let looks: Vec<Visual> = sprites.iter().map(|s| s.visual).collect();
    assert_eq!(
        looks,
        vec![Visual::Player, Visual::Coin, Visual::Enemy, Visual::PowerUp(PowerKind::Speed)]
    );
    assert_eq!(sprites[0].position, Position { x: 400, y: 300 });
    assert_eq!(sprites[3].position, Position { x: 9, y: 9 });
}

#[test]
fn player_without_velocity_still_collides() {
    let mut world = World::new();
    let p = boxed(&mut world, 0, 0, 20);
    world.players.insert(p, PlayerControlled);
    world.healths.insert(p, Health { value: 50 });
    world.scores.insert(p, Score { value: 0 });
    let coin = boxed(&mut world, 2, 2, 10);
    world.coins.insert(coin, Coin);
    let enemy = boxed(&mut world, 5, 5, 20);
    world.enemies.insert(enemy, Enemy);
    CollisionSystem.run(&mut world);
    assert!(!world.coins.contains(coin));
    assert_eq!(world.scores.get(p), Some(&Score { value: 10 }));
    assert_eq!(world.healths.get(p), Some(&Health { value: 40 }));
}

#[test]
fn two_players_on_one_coin_score_twice() {
    let mut world = World::new();
    let a = player_at(&mut world, 0, 0, 100);
    let b = player_at(&mut world, 4, 4, 100);
    let coin = boxed(&mut world, 6, 6, 10);
    world.coins.insert(coin, Coin);
    CollisionSystem.run(&mut world);
    assert!(!world.coins.contains(coin));
    assert_eq!(world.scores.get(a), Some(&Score { value: 20 }));
    assert_eq!(world.scores.get(b), Some(&Score { value: 20 }));
}

#[test]
fn tick_reports_coordinate_overflow() {
    let mut world = World::new();
    let p = create_player(&mut world).unwrap();
    world.positions.insert(p, Position { x: i64::MAX - 2, y: 0 });
    let mut spawner = SpawnSystem::new(800, 600).unwrap();
    let input = InputResource { keys: vec![Key::Right] };
    assert_eq!(tick(&mut world, &input, &mut spawner), Err(SimError::CoordinateOverflow));
    assert_eq!(world.velocities.get(p), Some(&Velocity { dx: 1, dy: 0 }));
    assert_eq!(world.positions.get(p), Some(&Position { x: i64::MAX - 2, y: 0 }));
    assert_eq!(spawner.coin_timer, 0);
}

#[test]
fn tick_moves_the_player_by_the_keys() {
    let mut world = World::new();
    let p = create_player(&mut world).unwrap();
    let mut spawner = SpawnSystem::new(800, 600).unwrap();
    let input = InputResource { keys: vec![Key::Left, Key::Down] };
    tick(&mut world, &input, &mut spawner).unwrap();
    assert_eq!(world.positions.get(p), Some(&Position { x: 395, y: 305 }));
    assert_eq!(spawner.coin_timer, 1);
}
