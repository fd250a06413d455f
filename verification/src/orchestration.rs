//! Event records, runtime error codes and the orchestration subsystems that
//! collaborating layers hand their hooks to.
//!
//! The event bus, the protocol bridges and the process-boundary exports are
//! consumers of the core, not part of it; this module holds the plain data
//! they exchange with the core — event records, payload metadata, error
//! taxonomies — and the orchestration facade whose analysis hooks the core
//! actually computes.  Confidence scores, rates and quality figures are
//! per-mille integers.

use vstd::prelude::*;
use crate::strutil::{contains_substring, str_contains};

verus! {

/// Result code for a host-facing call that succeeded.
pub const SUCCESS: u32 = 0;

/// Result code for a call rejected over its parameters.
pub const ERROR_INVALID_PARAMETERS: u32 = 1;

/// Result code for a runtime that could not be initialized.
pub const ERROR_INITIALIZATION_FAILED: u32 = 2;

/// Result code for an allocation failure.
pub const ERROR_OUT_OF_MEMORY: u32 = 3;

/// Result code for a failed analysis pass.
pub const ERROR_AI_PROCESSING_FAILED: u32 = 4;

/// Priority levels of the host's event system.
#[derive(Clone, Copy, Debug, PartialEq, Eq, Structural)]
pub enum EventPriority {
    System,
    Realtime,
    AI,
    Network,
    Background,
}

/// How much analysis an event asks for.
#[derive(Clone, Copy, Debug, PartialEq, Eq, Structural)]
pub enum AIEnhancementLevel {
    Disabled,
    Basic,
    Enhanced,
    Predictive,
    Adaptive,
}

/// A host event record.
#[derive(Clone, Copy, Debug, PartialEq, Eq, Structural)]
pub struct StormEvent {
    pub event_id: u64,
    pub event_type: u32,
    pub priority: u8,
    pub ai_enhancement_level: u8,
    pub timestamp: u64,
    pub source_component: u32,
    pub target_component: u32,
    pub data_size: usize,
    pub ai_confidence_pm: u32,
    pub processing_flags: u32,
}

/// Resource demands estimated for processing one event.
#[derive(Clone, Copy, Debug, PartialEq, Eq, Structural)]
pub struct ResourceRequirements {
    pub cpu_intensity: u8,
    pub memory_usage: u32,
    pub gpu_required: bool,
    pub network_bandwidth: u32,
}

/// Analysis metadata attached to an event payload.
pub struct AIMetadata {
    pub confidence_pm: u32,
    pub complexity_rating: u8,
    pub processing_time_estimate: u32,
    pub resource_requirements: ResourceRequirements,
    pub learning_indicators: Vec<String>,
}

/// One recorded processing step of a payload.
pub struct ProcessingStep {
    pub processor_id: String,
    pub processing_time: u32,
    pub quality_pm: u32,
    pub optimization_applied: bool,
}

/// An event's data payload with its analysis metadata.
pub struct EventPayload {
    pub raw_data: Vec<u8>,
    pub ai_metadata: AIMetadata,
    pub context_hints: Vec<String>,
    pub processing_history: Vec<ProcessingStep>,
}

/// The outcome of one processor over an event.
pub struct ProcessingResult {
    pub processor_name: String,
    pub execution_time_us: u64,
    pub success: bool,
    pub output_data: Option<Vec<u8>>,
}

/// A filter that matches events by their type code.
pub struct TypeEventFilter {
    pub event_types: Vec<u32>,
    pub name: String,
}

impl TypeEventFilter {
    /// Whether the filter admits `event`: its type code is one of the
    /// filter's.  The payload plays no part in type-based filtering.
    pub fn matches(&self, event: &StormEvent, _payload: &EventPayload) -> (r: bool)
        ensures
            r == self.event_types@.contains(event.event_type),
    {
        let n = self.event_types.len();
        let mut i: usize = 0;
        while i < n
            invariant
                n == self.event_types@.len(),
                i <= n,
                forall|j: int| 0 <= j < i ==> self.event_types@[j] != event.event_type,
            decreases n - i,
        {
            if self.event_types[i] == event.event_type {
                return true;
            }
            i = i + 1;
        }
        return false;
    }

    /// The filter's name, for diagnostics.
    pub fn filter_name(&self) -> (r: &str)
        ensures
            r@ == self.name@,
    {
        self.name.as_str()
    }
}

/// Why a runtime call failed.
#[derive(Clone, Copy, Debug, PartialEq, Eq, Structural)]
pub enum RuntimeError {
    InitializationFailed,
    InvalidConfiguration,
    AIProcessingError,
}

impl RuntimeError {
    /// The host-facing result code of this error.
    pub fn error_code(&self) -> (r: u32)
        ensures
            r == match *self {
                RuntimeError::InitializationFailed => ERROR_INITIALIZATION_FAILED,
                RuntimeError::InvalidConfiguration => ERROR_INVALID_PARAMETERS,
                RuntimeError::AIProcessingError => ERROR_AI_PROCESSING_FAILED,
            },
            r != SUCCESS,
    {
        match self {
            RuntimeError::InitializationFailed => ERROR_INITIALIZATION_FAILED,
            RuntimeError::InvalidConfiguration => ERROR_INVALID_PARAMETERS,
            RuntimeError::AIProcessingError => ERROR_AI_PROCESSING_FAILED,
        }
    }
}

/// Why an event could not be published or processed.
#[derive(Clone, Copy, Debug, PartialEq, Eq, Structural)]
pub enum EventError {
    InvalidEvent,
    ProcessingFailed,
    QueueFull,
}

/// A handle identifying one event subscription.
pub struct SubscriptionHandle {
    id: u64,
}

impl SubscriptionHandle {
    pub closed spec fn spec_id(&self) -> u64 {
        self.id
    }

    /// A handle carrying the caller-supplied identifier; the host usually
    /// passes a timestamp so handles stay distinct.
    pub fn new(id: u64) -> (r: Self)
        ensures
            r.spec_id() == id,
    {
        SubscriptionHandle { id }
    }

    pub fn id(&self) -> (r: u64)
        ensures
            r == self.spec_id(),
    {
        self.id
    }
}

/// What the orchestrator concluded about one state update.
pub struct UpdateContext {
    pub source_protocol: Option<String>,
    pub user_action: bool,
    pub system_generated: bool,
    pub priority_level: u8,
}

/// Insights gathered from an optimization pass.
pub struct OptimizationInsights {
    pub performance_improvements: Vec<String>,
    pub resource_optimizations: Vec<String>,
    pub pattern_discoveries: Vec<String>,
}

impl OptimizationInsights {
    /// No insights yet.
    pub fn empty() -> (r: Self)
        ensures
            r.performance_improvements@.len() == 0,
            r.resource_optimizations@.len() == 0,
            r.pattern_discoveries@.len() == 0,
    {
        OptimizationInsights {
            performance_improvements: Vec::new(),
            resource_optimizations: Vec::new(),
            pattern_discoveries: Vec::new(),
        }
    }
}

/// Distributes synchronization work across protocol bridges.
pub struct TaskDistributionEngine;

impl TaskDistributionEngine {
    pub fn new() -> Self {
        TaskDistributionEngine
    }
}

/// Adjusts resource allocation strategies from optimization insights.
pub struct ResourceAllocationManager;

impl ResourceAllocationManager {
    pub fn new() -> Self {
        ResourceAllocationManager
    }

    /// Folds new insights into the allocation strategy; the manager holds
    /// no tunable state yet, so the fold changes nothing.
    pub fn update_allocation_strategies(&mut self, _insights: &OptimizationInsights)
        ensures
            *final(self) == *old(self),
    {
    }
}

/// Guards quality thresholds of analysis outputs.
pub struct QualityControlSystem;

impl QualityControlSystem {
    pub fn new() -> Self {
        QualityControlSystem
    }
}

/// Coordinates learning across the orchestration subsystems.
pub struct LearningCoordinationHub;

impl LearningCoordinationHub {
    pub fn new() -> Self {
        LearningCoordinationHub
    }
}

/// Plans optimization passes over host subsystems.
pub struct AIOptimizationEngine;

impl AIOptimizationEngine {
    pub fn new() -> Self {
        AIOptimizationEngine
    }
}

/// Profiles host subsystems.
pub struct AIPerformanceMonitor;

impl AIPerformanceMonitor {
    pub fn new() -> Self {
        AIPerformanceMonitor
    }
}

/// Makes routing and scheduling decisions from learned patterns.
pub struct AIDecisionEngine;

impl AIDecisionEngine {
    pub fn new() -> Self {
        AIDecisionEngine
    }

    /// Folds new insights into the decision models; the engine holds no
    /// tunable state yet, so the fold changes nothing.
    pub fn incorporate_learning_insights(&mut self, _insights: &OptimizationInsights)
        ensures
            *final(self) == *old(self),
    {
    }
}

/// Integrates context signals across subsystems.
pub struct ContextIntegrationSystem;

impl ContextIntegrationSystem {
    pub fn new() -> Self {
        ContextIntegrationSystem
    }
}

/// Chooses routes for published events.
pub struct RouteOptimizer;

impl RouteOptimizer {
    pub fn new() -> Self {
        RouteOptimizer
    }

    /// Routing never rewrites an event today: the event passes through
    /// unchanged.
    pub fn optimize_routing(&self, event: StormEvent) -> (r: Result<StormEvent, EventError>)
        ensures
            r == Result::<StormEvent, EventError>::Ok(event),
    {
        Ok(event)
    }
}

/// Enriches event payloads before queueing.
pub struct AIEventProcessor;

impl AIEventProcessor {
    pub fn new() -> Self {
        AIEventProcessor
    }

    /// Enhancement never rejects a payload today: the payload passes
    /// through unchanged.
    pub fn enhance_event(&self, _event: &StormEvent, payload: EventPayload) -> (r: Result<
        EventPayload,
        EventError,
    >)
        ensures
            r matches Ok(p) && p == payload,
    {
        Ok(payload)
    }
}

/// Analyzes the context around published events.
pub struct ContextAnalyzer;

impl ContextAnalyzer {
    pub fn new() -> Self {
        ContextAnalyzer
    }

    /// Records context for later analysis; the analyzer holds no state
    /// yet, so nothing changes.
    pub fn analyze_event_context(&mut self, _event: &StormEvent, _payload: &EventPayload)
        ensures
            *final(self) == *old(self),
    {
    }
}

/// Collects delivery metrics.
pub struct MetricsCollector;

impl MetricsCollector {
    pub fn new() -> Self {
        MetricsCollector
    }

    /// Records one published event; the collector holds no state yet, so
    /// nothing changes.
    pub fn record_event(&mut self, _event: &StormEvent)
        ensures
            *final(self) == *old(self),
    {
    }

    /// Records one delivery to a component.
    pub fn record_delivery(&self, _component_id: u32, _event: &StormEvent) {
    }
}

/// Predicts load from processed events.
pub struct PerformancePredictor;

impl PerformancePredictor {
    pub fn new() -> Self {
        PerformancePredictor
    }
}

/// Central coordination facade over the orchestration subsystems.
pub struct AIOrchestrator {
    task_distribution: TaskDistributionEngine,
    resource_allocation: ResourceAllocationManager,
    quality_control: QualityControlSystem,
    learning_hub: LearningCoordinationHub,
    optimization_engine: AIOptimizationEngine,
    performance_monitor: AIPerformanceMonitor,
    decision_engine: AIDecisionEngine,
    context_integration: ContextIntegrationSystem,
}

impl AIOrchestrator {
    pub fn new() -> Self {
        AIOrchestrator {
            task_distribution: TaskDistributionEngine::new(),
            resource_allocation: ResourceAllocationManager::new(),
            quality_control: QualityControlSystem::new(),
            learning_hub: LearningCoordinationHub::new(),
            optimization_engine: AIOptimizationEngine::new(),
            performance_monitor: AIPerformanceMonitor::new(),
            decision_engine: AIDecisionEngine::new(),
            context_integration: ContextIntegrationSystem::new(),
        }
    }

    /// Classifies one state update from its path and source: a path that
    /// mentions a user is a user action, an update without a source
    /// protocol is system generated, and a critical path is prioritized to
    /// the top of the scale.
    pub fn analyze_update_context(
        &self,
        path: &str,
        _value: &[u8],
        source_protocol: Option<&str>,
    ) -> (r: UpdateContext)
        ensures
            r.user_action == contains_substring(path@, "user"@),
            r.system_generated == (source_protocol matches Option::None),
            r.priority_level == if contains_substring(path@, "critical"@) {
                255int
            } else {
                128int
            },
            match source_protocol {
                Some(s) => r.source_protocol matches Some(p) && p@ == s@,
                None => r.source_protocol matches Option::<String>::None,
            },
    {
        let user_action = str_contains(path, "user");
        let critical = str_contains(path, "critical");
        let (system_generated, source) = match source_protocol {
            Some(s) => (false, Some(s.to_owned())),
            None => (true, None),
        };
        UpdateContext {
            source_protocol: source,
            user_action,
            system_generated,
            priority_level: if critical {
                255
            } else {
                128
            },
        }
    }
}

} // verus!
