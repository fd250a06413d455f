use storm_core::orchestration::AIMetadata;
use storm_core::orchestration::AIOrchestrator;
use storm_core::orchestration::EventPayload;
use storm_core::orchestration::ResourceRequirements;
use storm_core::orchestration::RuntimeError;
use storm_core::orchestration::StormEvent;
use storm_core::orchestration::SubscriptionHandle;
use storm_core::orchestration::TypeEventFilter;
use storm_core::orchestration::ERROR_AI_PROCESSING_FAILED;
use storm_core::orchestration::ERROR_INITIALIZATION_FAILED;
use storm_core::orchestration::ERROR_INVALID_PARAMETERS;
use storm_core::protocol::AgentMovementHandler;
use storm_core::protocol::ChatMessageHandler;
use storm_core::protocol::ObjectUpdateHandler;
use storm_core::protocol::OSMessageHeader;
use storm_core::protocol::RegionHandshakeHandler;
use storm_core::state::IntelligentCacheManager;
use storm_core::state::StateHierarchy;
use storm_core::state::SyncTask;
use storm_core::store::ComponentStorage;
use storm_core::strutil::str_contains;

fn sample_event(event_type: u32) -> StormEvent {
    StormEvent {
        event_id: 1,
        event_type,
        priority: 1,
        ai_enhancement_level: 1,
        timestamp: 0,
        source_component: 1,
        target_component: 2,
        data_size: 0,
        ai_confidence_pm: 1000,
        processing_flags: 0,
    }
}

fn sample_payload() -> EventPayload {
    EventPayload {
        raw_data: Vec::new(),
        ai_metadata: AIMetadata {
            confidence_pm: 1000,
            complexity_rating: 1,
            processing_time_estimate: 100,
            resource_requirements: ResourceRequirements {
                cpu_intensity: 50,
                memory_usage: 1024,
                gpu_required: false,
                network_bandwidth: 0,
            },
            learning_indicators: Vec::new(),
        },
        context_hints: Vec::new(),
        processing_history: Vec::new(),
    }
}

#[test]
fn test_ai_orchestrator_initialization() {
    let _orchestrator = AIOrchestrator::new();
}

#[test]
fn test_event_filter() {
    let filter = TypeEventFilter { event_types: vec![1, 2, 3], name: "TestFilter".to_string() };
    let event = sample_event(2);
    let payload = sample_payload();
    assert!(filter.matches(&event, &payload));
    assert_eq!(filter.filter_name(), "TestFilter");
    assert!(!filter.matches(&sample_event(9), &payload));
}

#[test]
fn test_state_manager_operations() {
    let orchestrator = AIOrchestrator::new();
    let context = orchestrator.analyze_update_context("/test/path", &[1, 2, 3, 4], None);
    let mut state = StateHierarchy::new();

    let result = state.update_with_context("/test/path", vec![1, 2, 3, 4], &context);
    assert!(result.is_ok());

    let retrieved = state.get("/test/path");
    assert!(retrieved.is_ok());
    assert_eq!(retrieved.unwrap(), Some(vec![1, 2, 3, 4]));
}

// The update context classifies paths by their content.
#[test]
fn update_context_classification() {
    let orchestrator = AIOrchestrator::new();

    let user = orchestrator.analyze_update_context("/user/pose", &[], Some("osim"));
    assert!(user.user_action);
    assert!(!user.system_generated);
    assert_eq!(user.priority_level, 128);
    assert_eq!(user.source_protocol.as_deref(), Some("osim"));

    let critical = orchestrator.analyze_update_context("/critical/region", &[], None);
    assert!(!critical.user_action);
    assert!(critical.system_generated);
    assert_eq!(critical.priority_level, 255);
    assert!(critical.source_protocol.is_none());
}

// Substring search agrees with plain expectations, including edge cases.
#[test]
fn substring_search_cases() {
    assert!(str_contains("entity/user/42", "user"));
    assert!(!str_contains("entity/u-s-e-r", "user"));
    assert!(str_contains("anything", ""));
    assert!(!str_contains("", "x"));
    assert!(str_contains("critical", "critical"));
}

// The state cache returns exactly what was stored, path by path.
#[test]
fn cache_manager_roundtrip() {
    let mut cache = IntelligentCacheManager::new();
    assert_eq!(cache.get_optimized("/a"), None);
    cache.store_with_ai_policy("/a", vec![1]);
    cache.store_with_ai_policy("/b", vec![2, 2]);
    assert_eq!(cache.get_optimized("/a"), Some(vec![1]));
    assert_eq!(cache.get_optimized("/b"), Some(vec![2, 2]));
    cache.store_with_ai_policy("/a", vec![9]);
    assert_eq!(cache.get_optimized("/a"), Some(vec![9]));
    assert_eq!(cache.get_optimized("/b"), Some(vec![2, 2]));
}

// Each error variant maps to its host-facing result code.
#[test]
fn runtime_error_codes() {
    assert_eq!(RuntimeError::InitializationFailed.error_code(), ERROR_INITIALIZATION_FAILED);
    assert_eq!(RuntimeError::InvalidConfiguration.error_code(), ERROR_INVALID_PARAMETERS);
    assert_eq!(RuntimeError::AIProcessingError.error_code(), ERROR_AI_PROCESSING_FAILED);
}

// A subscription handle keeps the identifier it was given.
#[test]
fn subscription_handle_keeps_id() {
    let handle = SubscriptionHandle::new(77);
    assert_eq!(handle.id(), 77);
}

// A synchronization task completes when waited out.
#[test]
fn sync_task_completes() {
    let mut task = SyncTask::new();
    assert!(task.wait_with_ai_recovery().is_ok());
}

// The message handlers translate their message types into event records.
#[test]
fn message_handlers_produce_events() {
    let header = OSMessageHeader { flags: 0, sequence: 1, extra: 0, message_id: 1, header_size: 10 };

    let movement = AgentMovementHandler::new();
    assert_eq!(movement.get_message_type(), 1);
    let ev = movement.handle_message(&header, &[], 50).unwrap();
    assert_eq!(ev.event_type, 1001);
    assert_eq!(ev.timestamp, 50);

    let chat = ChatMessageHandler::new();
    assert_eq!(chat.get_message_type(), 2);
    assert_eq!(chat.handle_message(&header, &[], 51).unwrap().event_type, 1002);

    let object = ObjectUpdateHandler::new();
    assert_eq!(object.get_message_type(), 3);
    assert_eq!(object.handle_message(&header, &[], 52).unwrap().event_type, 1003);

    let region = RegionHandshakeHandler::new();
    assert_eq!(region.get_message_type(), 4);
    let handshake = region.handle_message(&header, &[], 53).unwrap();
    assert_eq!(handshake.event_type, 1004);
    assert_eq!(handshake.priority, 0);
}

// Slot reuse law, concretely: insert, remove, insert on one store never
// grows the dense array beyond its high-water mark.
#[test]
fn slot_reuse_keeps_high_water_mark() {
    let mut store: ComponentStorage<u32> = ComponentStorage::new();
    assert!(store.insert(1, 10).is_none());
    assert!(store.insert(2, 20).is_none());
    assert_eq!(store.slot_count(), 2);

    assert_eq!(store.remove(1), Some(10));
    assert_eq!(store.free_slots(), 1);

    assert!(store.insert(3, 30).is_none());
    assert_eq!(store.slot_count(), 2);
    assert_eq!(store.occupied(), 2);
    assert_eq!(store.free_slots(), 0);
}

// Trailing vacated slots are reclaimed by compaction, but only once the
// throttle interval has passed.
#[test]
fn compaction_is_throttled() {
    let mut store: ComponentStorage<u32> = ComponentStorage::new();
    store.insert(1, 10);
    store.insert(2, 20);
    store.insert(3, 30);
    store.remove(3);
    assert_eq!(store.slot_count(), 3);

    store.optimize_layout(2);
    assert_eq!(store.slot_count(), 3);

    store.optimize_layout(5);
    assert_eq!(store.slot_count(), 2);

    store.remove(2);
    store.optimize_layout(7);
    assert_eq!(store.slot_count(), 2);

    store.optimize_layout(10);
    assert_eq!(store.slot_count(), 1);
    assert_eq!(store.entity_ids(), vec![1]);
}
