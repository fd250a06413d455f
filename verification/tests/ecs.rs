use storm_core::world::{ECSWorld, LifecycleEventType};
use storm_core::scheduler::AIContext;
use storm_core::scheduler::PerformanceTier;

const POSITION: u64 = 1;
const VELOCITY: u64 = 2;
const RENDER: u64 = 3;

#[derive(Clone, Debug, PartialEq)]
enum TestComponent {
    Position { x: f32, y: f32, z: f32 },
    Velocity { dx: f32, dy: f32, dz: f32 },
    Render { mesh_id: String, material_id: String, visible: bool, scale: f32 },
}

fn position(x: f32, y: f32, z: f32) -> TestComponent {
    TestComponent::Position { x, y, z }
}

fn velocity(dx: f32, dy: f32, dz: f32) -> TestComponent {
    TestComponent::Velocity { dx, dy, dz }
}

fn default_context() -> AIContext {
    AIContext {
        frame_time_budget_us: 16670,
        system_load_factor_pm: 800,
        predicted_entity_count: 1000,
        performance_tier: PerformanceTier::High,
        optimization_hints: Vec::new(),
    }
}

#[test]
fn test_cross_platform_ecs_creation() {
    let mut world: ECSWorld<TestComponent> = ECSWorld::new();
    let entity = world.create_entity(0);
    assert!(entity > 0);
}

#[test]
fn test_component_operations() {
    let mut world: ECSWorld<TestComponent> = ECSWorld::new();
    let entity = world.create_entity(0);

    world.add_component(entity, POSITION, position(1.0, 2.0, 3.0));

    assert!(world.has_component(entity, POSITION));

    let retrieved_position = world.get_component(entity, POSITION);
    assert!(retrieved_position.is_some());
    match retrieved_position.unwrap() {
        TestComponent::Position { x, .. } => assert_eq!(*x, 1.0),
        other => panic!("expected a position, found {:?}", other),
    }

    let removed = world.remove_component(entity, POSITION);
    assert!(removed.is_some());
    assert!(!world.has_component(entity, POSITION));
}

#[test]
fn test_query_system() {
    let mut world: ECSWorld<TestComponent> = ECSWorld::new();

    let entity1 = world.create_entity(0);
    let entity2 = world.create_entity(0);
    let entity3 = world.create_entity(0);

    world.add_component(entity1, POSITION, position(1.0, 0.0, 0.0));
    world.add_component(entity2, POSITION, position(2.0, 0.0, 0.0));
    world.add_component(entity3, VELOCITY, velocity(1.0, 0.0, 0.0));

    let position_query = world.query(POSITION, 0);
    assert_eq!(position_query.len(), 2);

    let velocity_query = world.query(VELOCITY, 0);
    assert_eq!(velocity_query.len(), 1);
}

#[test]
fn test_ai_optimization() {
    let mut world: ECSWorld<TestComponent> = ECSWorld::new();

    for i in 0..1000 {
        let entity = world.create_entity(0);
        world.add_component(entity, POSITION, position(i as f32, 0.0, 0.0));
    }

    let ai_context = default_context();
    world.optimize_performance(&ai_context, 10);
}

// Entity identifiers are unique among live entities, and a reused raw
// identifier always carries a strictly greater generation.
#[test]
fn entity_reuse_bumps_generation() {
    let mut world: ECSWorld<TestComponent> = ECSWorld::new();
    let a = world.create_entity(0);
    let b = world.create_entity(1);
    assert_ne!(a, b);
    assert_eq!(world.generation_of_id(a), Some(0));

    world.remove_entity(a, 2);
    let c = world.create_entity(3);
    assert_eq!(c, a);
    assert_eq!(world.generation_of_id(c), Some(1));

    world.remove_entity(c, 4);
    let d = world.create_entity(5);
    assert_eq!(d, a);
    assert_eq!(world.generation_of_id(d), Some(2));
}

// Recycled identifiers come back in oldest-freed-first order.
#[test]
fn recycling_is_first_in_first_out() {
    let mut world: ECSWorld<TestComponent> = ECSWorld::new();
    let a = world.create_entity(0);
    let b = world.create_entity(0);
    let c = world.create_entity(0);
    world.remove_entity(b, 1);
    world.remove_entity(a, 2);
    assert_eq!(world.create_entity(3), b);
    assert_eq!(world.create_entity(4), a);
    let fresh = world.create_entity(5);
    assert!(fresh > c);
}

// A second removal of the same component is a no-op that returns nothing.
#[test]
fn second_remove_returns_nothing() {
    let mut world: ECSWorld<TestComponent> = ECSWorld::new();
    let entity = world.create_entity(0);
    world.add_component(entity, POSITION, position(1.0, 1.0, 1.0));
    assert!(world.remove_component(entity, POSITION).is_some());
    assert!(world.remove_component(entity, POSITION).is_none());
    assert!(!world.has_component(entity, POSITION));
}

// Overwriting a component keeps the entity list stable and replaces the value.
#[test]
fn insert_overwrites_in_place() {
    let mut world: ECSWorld<TestComponent> = ECSWorld::new();
    let entity = world.create_entity(0);
    world.add_component(entity, POSITION, position(1.0, 0.0, 0.0));
    world.add_component(entity, POSITION, position(9.0, 0.0, 0.0));
    assert_eq!(world.entities_with_component(POSITION), vec![entity]);
    match world.get_component(entity, POSITION).unwrap() {
        TestComponent::Position { x, .. } => assert_eq!(*x, 9.0),
        other => panic!("expected a position, found {:?}", other),
    }
}

// Scenario: Position on A and B, Velocity on C; the queries yield exactly
// those owners.
#[test]
fn query_yields_exact_owner_sets() {
    let mut world: ECSWorld<TestComponent> = ECSWorld::new();
    let a = world.create_entity(0);
    let b = world.create_entity(0);
    let c = world.create_entity(0);
    world.add_component(a, POSITION, position(0.0, 0.0, 0.0));
    world.add_component(b, POSITION, position(1.0, 0.0, 0.0));
    world.add_component(c, VELOCITY, velocity(0.0, 1.0, 0.0));

    let positions = world.query(POSITION, 0);
    assert_eq!(positions.entity_ids(), &[a, b][..]);
    let velocities = world.query(VELOCITY, 0);
    assert_eq!(velocities.entity_ids(), &[c][..]);
}

// Two queries inside the freshness window with no intervening mutation of
// the kind return identical entity sets; a query after a mutation of the
// kind reflects it.
#[test]
fn query_cache_stability_and_invalidation() {
    let mut world: ECSWorld<TestComponent> = ECSWorld::new();
    let a = world.create_entity(0);
    let b = world.create_entity(0);
    world.add_component(a, POSITION, position(0.0, 0.0, 0.0));
    world.add_component(b, POSITION, position(1.0, 0.0, 0.0));

    let first = world.query(POSITION, 7);
    let second = world.query(POSITION, 7);
    assert_eq!(first.entity_ids(), second.entity_ids());

    world.remove_component(a, POSITION);
    let third = world.query(POSITION, 7);
    assert_eq!(third.entity_ids(), &[b][..]);

    world.add_component(a, POSITION, position(0.0, 2.0, 0.0));
    let fourth = world.query(POSITION, 7);
    assert_eq!(fourth.entity_ids(), &[b, a][..]);
}

// An expired snapshot is never served again, even if still accurate.
#[test]
fn query_results_expire() {
    let mut world: ECSWorld<TestComponent> = ECSWorld::new();
    let a = world.create_entity(0);
    world.add_component(a, POSITION, position(0.0, 0.0, 0.0));
    let early = world.query(POSITION, 5);
    assert!(early.is_valid(5));
    assert!(!early.is_valid(6));
    let late = world.query(POSITION, 6);
    assert_eq!(late.entity_ids(), early.entity_ids());
}

// Scenario: destroying an entity that owns two kinds removes it from both
// stores' entity lists and drops cached queries of both kinds.
#[test]
fn destroy_cascades_to_all_kinds() {
    let mut world: ECSWorld<TestComponent> = ECSWorld::new();
    let a = world.create_entity(0);
    let b = world.create_entity(0);
    world.add_component(a, POSITION, position(0.0, 0.0, 0.0));
    world.add_component(a, VELOCITY, velocity(1.0, 0.0, 0.0));
    world.add_component(b, POSITION, position(1.0, 0.0, 0.0));

    let positions = world.query(POSITION, 3);
    let velocities = world.query(VELOCITY, 3);
    assert_eq!(positions.entity_ids(), &[a, b][..]);
    assert_eq!(velocities.entity_ids(), &[a][..]);

    world.remove_entity(a, 3);

    assert_eq!(world.entities_with_component(POSITION), vec![b]);
    assert_eq!(world.entities_with_component(VELOCITY), Vec::<u64>::new());
    let positions_after = world.query(POSITION, 3);
    let velocities_after = world.query(VELOCITY, 3);
    assert_eq!(positions_after.entity_ids(), &[b][..]);
    assert_eq!(velocities_after.entity_ids(), &[][..] as &[u64]);
}

// Destruction records a lifecycle event and queues the identifier for reuse.
#[test]
fn destroy_records_event_and_recycles() {
    let mut world: ECSWorld<TestComponent> = ECSWorld::new();
    let a = world.create_entity(10);
    world.remove_entity(a, 11);
    assert_eq!(world.recycle_queue_len(), 1);
    let n = world.lifecycle_event_count();
    assert_eq!(n, 2);
    let ev = world.lifecycle_event_at(1);
    assert_eq!(ev.entity_id, a);
    assert_eq!(ev.event_type, LifecycleEventType::Destroyed);
    assert_eq!(ev.timestamp, 11);
}

// The lifecycle ring is bounded: past its capacity the oldest entry drops.
#[test]
fn lifecycle_ring_is_bounded() {
    let mut world: ECSWorld<TestComponent> = ECSWorld::new();
    for t in 0..1001u64 {
        world.create_entity(t);
    }
    assert_eq!(world.lifecycle_event_count(), 1000);
    assert_eq!(world.lifecycle_event_at(0).timestamp, 1);
    assert_eq!(world.lifecycle_event_at(999).timestamp, 1000);
}

// An oversized recycle queue is trimmed to half, oldest entries first.
#[test]
fn optimize_trims_recycle_pool() {
    let mut world: ECSWorld<TestComponent> = ECSWorld::new();
    let mut ids = Vec::new();
    for _ in 0..1100 {
        ids.push(world.create_entity(0));
    }
    for id in &ids {
        world.remove_entity(*id, 1);
    }
    assert_eq!(world.recycle_queue_len(), 1100);
    world.optimize_performance(&default_context(), 2);
    assert_eq!(world.recycle_queue_len(), 550);
}

// Mutating an unknown entity degrades gracefully into a no-op.
#[test]
fn unknown_entity_operations_are_noops() {
    let mut world: ECSWorld<TestComponent> = ECSWorld::new();
    world.add_component(42, POSITION, position(0.0, 0.0, 0.0));
    assert!(!world.has_component(42, POSITION));
    assert!(world.get_component(42, POSITION).is_none());
    assert!(world.remove_component(42, POSITION).is_none());
    world.remove_entity(42, 0);
    assert_eq!(world.recycle_queue_len(), 0);
}

// A prior snapshot resolves to (entity, component) pairs against the
// current state, skipping entities that lost the kind since.
#[test]
fn snapshot_resolves_to_pairs() {
    let mut world: ECSWorld<TestComponent> = ECSWorld::new();
    let a = world.create_entity(0);
    let b = world.create_entity(0);
    world.add_component(a, RENDER, TestComponent::Render {
        mesh_id: "cube".to_string(),
        material_id: "default".to_string(),
        visible: true,
        scale: 1.0,
    });
    world.add_component(b, RENDER, TestComponent::Render {
        mesh_id: "sphere".to_string(),
        material_id: "default".to_string(),
        visible: false,
        scale: 2.0,
    });
    let snapshot = world.query(RENDER, 0);
    world.remove_component(b, RENDER);
    let pairs = world.get_components_for_query(RENDER, &snapshot);
    assert_eq!(pairs.len(), 1);
    assert_eq!(pairs[0].0, a);
    match pairs[0].1 {
        TestComponent::Render { mesh_id, .. } => assert_eq!(mesh_id, "cube"),
        other => panic!("expected a render component, found {:?}", other),
    }
}
