use storm_core::scheduler::AIContext;
use storm_core::scheduler::AISystemManager;
use storm_core::scheduler::ExecutionStrategy;
use storm_core::scheduler::HealthSystem;
use storm_core::scheduler::IntelligentScheduler;
use storm_core::scheduler::MovementSystem;
use storm_core::scheduler::PerformanceTier;
use storm_core::scheduler::RenderSystem;
use storm_core::scheduler::ResourceUsage;
use storm_core::scheduler::SystemDescriptor;
use storm_core::scheduler::SystemExecutionStats;
use storm_core::scheduler::SystemPriority;
use storm_core::scheduler::SystemReport;
use storm_core::scheduler::SystemResourceHints;
use storm_core::world::ECSWorld;

const POSITION: u64 = 1;
const VELOCITY: u64 = 2;
const RENDER: u64 = 3;

#[derive(Clone, Debug, PartialEq)]
enum TestComponent {
    Position { x: f32, y: f32, z: f32 },
    Velocity { dx: f32, dy: f32, dz: f32 },
    Render { mesh_id: String, material_id: String, visible: bool, scale: f32 },
}

fn no_hints() -> SystemResourceHints {
    SystemResourceHints {
        cpu_intensive: false,
        memory_intensive: false,
        gpu_required: false,
        network_dependent: false,
        disk_io_required: false,
    }
}

fn descriptor(name: &str, priority: SystemPriority) -> SystemDescriptor {
    SystemDescriptor {
        name: name.to_string(),
        priority,
        resource_hints: no_hints(),
        supports_parallel: true,
    }
}

fn slow_stats() -> SystemExecutionStats {
    SystemExecutionStats {
        total_executions: 5,
        average_execution_time_us: 6000,
        max_execution_time_us: 9000,
        success_rate_pm: 1000,
        resource_usage: ResourceUsage { cpu_pm: 0, memory_kb: 0, gpu_required: false },
    }
}

fn context(tier: PerformanceTier, budget_us: u64) -> AIContext {
    AIContext {
        frame_time_budget_us: budget_us,
        system_load_factor_pm: 500,
        predicted_entity_count: 100,
        performance_tier: tier,
        optimization_hints: Vec::new(),
    }
}

// The movement arithmetic a host application would run for the movement
// system: position grows by velocity times the frame delta.
fn run_movement(world: &mut ECSWorld<TestComponent>, delta_time: f32, now: u64) {
    let position_query = world.query(POSITION, now);
    let velocity_query = world.query(VELOCITY, now);
    let moving: Vec<u64> = position_query
        .entity_ids()
        .iter()
        .filter(|&&e| velocity_query.entity_ids().contains(&e))
        .copied()
        .collect();
    for entity in moving {
        let (dx, dy, dz) = match world.get_component(entity, VELOCITY) {
            Some(TestComponent::Velocity { dx, dy, dz }) => (*dx, *dy, *dz),
            _ => continue,
        };
        if let Some(TestComponent::Position { x, y, z }) = world.get_component(entity, POSITION) {
            let moved = TestComponent::Position {
                x: x + dx * delta_time,
                y: y + dy * delta_time,
                z: z + dz * delta_time,
            };
            world.add_component(entity, POSITION, moved);
        }
    }
}

#[test]
fn test_system_execution() {
    let mut world: ECSWorld<TestComponent> = ECSWorld::new();
    let mut system_manager = AISystemManager::new();

    system_manager.register_system(MovementSystem.descriptor());
    system_manager.register_system(RenderSystem::new().descriptor());

    let entity = world.create_entity(0);
    world.add_component(entity, POSITION, TestComponent::Position { x: 0.0, y: 0.0, z: 0.0 });
    world.add_component(entity, VELOCITY, TestComponent::Velocity { dx: 1.0, dy: 0.0, dz: 0.0 });
    world.add_component(entity, RENDER, TestComponent::Render {
        mesh_id: "cube".to_string(),
        material_id: "default".to_string(),
        visible: true,
        scale: 1.0,
    });

    let reports = vec![
        SystemReport { duration_us: 120, success: true },
        SystemReport { duration_us: 400, success: true },
    ];
    let executed = system_manager.update_systems(16_000, &reports);

    for &idx in &executed {
        if system_manager.system_at(idx).name == "MovementSystem" {
            run_movement(&mut world, 0.016, 1);
        }
    }

    match world.get_component(entity, POSITION).unwrap() {
        TestComponent::Position { x, .. } => assert!(*x > 0.0),
        other => panic!("expected a position, found {:?}", other),
    }
}

// Scenario: registering priorities [Normal, Critical, Low] yields a
// sequential plan that runs [Critical, Normal, Low].
#[test]
fn sequential_plan_honors_priority() {
    let mut manager = AISystemManager::new();
    manager.register_system(descriptor("logic", SystemPriority::Normal));
    manager.register_system(descriptor("input", SystemPriority::Critical));
    manager.register_system(descriptor("cleanup", SystemPriority::Low));

    assert_eq!(manager.system_at(0).name, "input");
    assert_eq!(manager.system_at(0).priority, SystemPriority::Critical);
    assert_eq!(manager.system_at(1).name, "logic");
    assert_eq!(manager.system_at(1).priority, SystemPriority::Normal);
    assert_eq!(manager.system_at(2).name, "cleanup");
    assert_eq!(manager.system_at(2).priority, SystemPriority::Low);

    let scheduler = IntelligentScheduler::new();
    let systems = vec![
        descriptor("input", SystemPriority::Critical),
        descriptor("logic", SystemPriority::Normal),
        descriptor("cleanup", SystemPriority::Low),
    ];
    let stats = vec![slow_stats(), slow_stats(), slow_stats()];
    let plan = scheduler.create_execution_plan(
        &systems,
        &stats,
        &context(PerformanceTier::Medium, 16_670),
    );
    assert_eq!(plan.execution_strategy, ExecutionStrategy::Sequential);
    assert_eq!(plan.system_order, vec![0, 1, 2]);
}

// Equal priorities stay in registration order: later registrations of the
// same tier land after the earlier ones.
#[test]
fn equal_priority_registration_is_stable() {
    let mut manager = AISystemManager::new();
    manager.register_system(descriptor("first", SystemPriority::Normal));
    manager.register_system(descriptor("second", SystemPriority::Normal));
    manager.register_system(descriptor("third", SystemPriority::Normal));
    assert_eq!(manager.system_at(0).name, "first");
    assert_eq!(manager.system_at(1).name, "second");
    assert_eq!(manager.system_at(2).name, "third");
}

// A high performance tier plans parallel execution; a majority of fast
// systems on a lesser tier plans adaptive execution.
#[test]
fn strategy_follows_tier_and_history() {
    let scheduler = IntelligentScheduler::new();
    let systems = vec![descriptor("a", SystemPriority::Normal)];
    let fresh = vec![SystemExecutionStats::new()];

    let parallel = scheduler.create_execution_plan(
        &systems,
        &fresh,
        &context(PerformanceTier::High, 16_670),
    );
    assert_eq!(parallel.execution_strategy, ExecutionStrategy::Parallel);

    let adaptive = scheduler.create_execution_plan(
        &systems,
        &fresh,
        &context(PerformanceTier::Medium, 16_670),
    );
    assert_eq!(adaptive.execution_strategy, ExecutionStrategy::Adaptive);
}

// Scenario: a Low-priority system that reports a duration above four fifths
// of the remaining budget stops the frame; the next system does not execute
// and its statistics stay untouched.
#[test]
fn budget_overrun_skips_lower_priority_systems() {
    let mut manager = AISystemManager::new();
    manager.register_system(descriptor("background", SystemPriority::Low));
    manager.register_system(descriptor("analytics", SystemPriority::Deferred));

    let reports = vec![
        SystemReport { duration_us: 16_000, success: true },
        SystemReport { duration_us: 10, success: true },
    ];
    let executed = manager.update_systems(16_670, &reports);

    assert_eq!(executed, vec![0]);
    assert_eq!(manager.stats_at(0).total_executions, 1);
    assert_eq!(manager.stats_at(1).total_executions, 0);
    assert_eq!(manager.stats_at(1).average_execution_time_us, 0);
}

// A Critical system may overrun the budget without cutting the frame short.
#[test]
fn critical_systems_never_cut_the_frame() {
    let mut manager = AISystemManager::new();
    manager.register_system(descriptor("input", SystemPriority::Critical));
    manager.register_system(descriptor("cleanup", SystemPriority::Deferred));

    let reports = vec![
        SystemReport { duration_us: 16_000, success: true },
        SystemReport { duration_us: 10, success: true },
    ];
    let executed = manager.update_systems(16_670, &reports);

    assert_eq!(executed, vec![0, 1]);
    assert_eq!(manager.stats_at(1).total_executions, 1);
}

// One recorded execution moves the smoothed average by a tenth of the
// sample, tracks the maximum, and folds the success flag into the rate.
#[test]
fn statistics_fold_exactly() {
    let mut stats = SystemExecutionStats::new();
    stats.record_execution(100, true);
    assert_eq!(stats.total_executions, 1);
    assert_eq!(stats.average_execution_time_us, 10);
    assert_eq!(stats.max_execution_time_us, 100);
    assert_eq!(stats.success_rate_pm, 1000);

    stats.record_execution(50, false);
    assert_eq!(stats.total_executions, 2);
    assert_eq!(stats.average_execution_time_us, 14);
    assert_eq!(stats.max_execution_time_us, 100);
    assert_eq!(stats.success_rate_pm, 900);
}

// Registration records resource conflicts against earlier systems that
// contend for the same scarce resource.
#[test]
fn registration_records_conflicts() {
    let mut scheduler = IntelligentScheduler::new();
    let gpu = SystemResourceHints {
        cpu_intensive: false,
        memory_intensive: false,
        gpu_required: true,
        network_dependent: false,
        disk_io_required: false,
    };
    scheduler.register_system("render".to_string(), gpu);
    scheduler.register_system("particles".to_string(), gpu);
}

// The example systems describe themselves as the engine expects.
#[test]
fn example_system_descriptors() {
    assert_eq!(MovementSystem.name(), "MovementSystem");
    assert_eq!(MovementSystem.priority(), SystemPriority::High);
    assert!(MovementSystem.supports_parallel_execution());

    let mut render = RenderSystem::new();
    assert_eq!(render.frame_count, 0);
    render.count_frame();
    assert_eq!(render.frame_count, 1);
    assert_eq!(render.name(), "RenderSystem");
    assert!(!render.supports_parallel_execution());
    assert!(render.resource_requirements().gpu_required);

    assert_eq!(HealthSystem.name(), "HealthSystem");
    assert_eq!(HealthSystem.priority(), SystemPriority::Normal);
}
