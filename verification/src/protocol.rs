//! The plain data the virtual-world protocol layer exchanges with the core.
//!
//! Wire parsing itself is the protocol bridge's business and stays outside
//! the core; what stands here are the protocol-facing value types — message
//! priorities, connection descriptions, optimization bookkeeping — and the
//! per-message-type handlers that turn a decoded header into a host event
//! record.  Confidence figures are per-mille integers; times are supplied by
//! the caller in milliseconds.

use vstd::prelude::*;
use crate::orchestration::StormEvent;

verus! {

/// Which wire protocol a bridge speaks.
#[derive(Clone, Copy, Debug, PartialEq, Eq, Structural)]
pub enum ProtocolType {
    OpenSimulator,
    MetaVerse,
    WebRTC,
    Custom(u32),
}

/// Priority of a protocol message; a lower rank is more urgent.
#[derive(Clone, Copy, Debug, PartialEq, Eq, Structural)]
pub enum MessagePriority {
    Critical,
    High,
    Normal,
    Low,
    Deferred,
}

/// The numeric rank of a message priority, 0 for the most urgent.
pub open spec fn message_rank_of(p: MessagePriority) -> int {
    match p {
        MessagePriority::Critical => 0,
        MessagePriority::High => 1,
        MessagePriority::Normal => 2,
        MessagePriority::Low => 3,
        MessagePriority::Deferred => 4,
    }
}

impl MessagePriority {
    pub fn rank(&self) -> (r: u8)
        ensures
            r as int == message_rank_of(*self),
    {
        match self {
            MessagePriority::Critical => 0,
            MessagePriority::High => 1,
            MessagePriority::Normal => 2,
            MessagePriority::Low => 3,
            MessagePriority::Deferred => 4,
        }
    }
}

/// Lifecycle state of a protocol connection.
#[derive(Clone, Copy, Debug, PartialEq, Eq, Structural)]
pub enum ConnectionState {
    Disconnected,
    Connecting,
    Authenticating,
    Connected,
    Reconnecting,
    Error,
}

/// Why a protocol operation failed.
#[derive(Clone, Debug)]
pub enum ProtocolError {
    ConnectionFailed(String),
    AuthenticationFailed(String),
    MessageParsingFailed(String),
    UnsupportedMessage(u32),
    NetworkTimeout,
    ProtocolViolation(String),
    BufferOverflow,
    InvalidData(String),
    AIProcessingFailed(String),
}

/// The kinds of enhancement a message can receive.
#[derive(Clone, Copy, Debug, PartialEq, Eq, Hash, Structural)]
pub enum AIEnhancementType {
    CompressionOptimization,
    PriorityAdjustment,
    ContentPrediction,
    RouteOptimization,
    SecurityAnalysis,
    PerformanceOptimization,
}

/// What analysis a protocol supports.
#[derive(Clone, Copy, Debug, PartialEq, Eq, Structural)]
pub struct ProtocolAICapabilities {
    pub supports_prediction: bool,
    pub supports_optimization: bool,
    pub supports_adaptive_quality: bool,
    pub supports_intelligent_routing: bool,
    pub ai_enhancement_level: u8,
}

/// Where and how a protocol instance is connected; `last_activity` is a
/// caller-supplied timestamp in milliseconds.
pub struct ConnectionInfo {
    pub endpoint: String,
    pub port: u16,
    pub encryption_enabled: bool,
    pub compression_enabled: bool,
    pub connection_state: ConnectionState,
    pub last_activity: Option<u64>,
}

/// The directions an optimization hint can point in.
#[derive(Clone, Copy, Debug, PartialEq, Eq, Structural)]
pub enum OptimizationHintType {
    ReduceLatency,
    IncreaseThroughput,
    SaveBandwidth,
    ImproveReliability,
    OptimizeForMobile,
    OptimizeForBattery,
}

/// A decoded message header of the virtual-world wire protocol.
#[derive(Clone, Copy, Debug, PartialEq, Eq, Structural)]
pub struct OSMessageHeader {
    pub flags: u8,
    pub sequence: u32,
    pub extra: u8,
    pub message_id: u32,
    pub header_size: usize,
}

/// A message-type pattern observed at a point in time, for time-series
/// analysis; the timestamp is caller-supplied, in milliseconds.
#[derive(Clone, Copy, Debug, PartialEq, Eq, Structural)]
pub struct TemporalPattern {
    pub timestamp: u64,
    pub message_type: u32,
    pub enhancement_type: AIEnhancementType,
    pub success: bool,
}

/// When an optimization rule fires; durations in microseconds.
#[derive(Clone, Copy, Debug, PartialEq, Eq, Structural)]
pub enum OptimizationCondition {
    MessageSizeGreaterThan(usize),
    PriorityEquals(u8),
    TimeSinceLastMessage(u64),
}

/// What a fired optimization rule does.
#[derive(Clone, Copy, Debug, PartialEq, Eq, Structural)]
pub enum OptimizationAction {
    AdjustPriority(i8),
    EnableCompression,
    ApplyPrediction,
}

/// What a protocol optimization aims at.
#[derive(Clone, Copy, Debug, PartialEq, Eq, Structural)]
pub enum OptimizationType {
    LatencyReduction,
    ThroughputIncrease,
    BandwidthOptimization,
    ReliabilityImprovement,
    MobileOptimization,
    BatteryOptimization,
}

/// Where an optimization stands.
#[derive(Clone, Copy, Debug, PartialEq, Eq, Structural)]
pub enum OptimizationStatus {
    Active,
    Completed,
    Failed,
    Cancelled,
}

/// One observed message, for sequence prediction; the timestamp is
/// caller-supplied, in milliseconds.
#[derive(Clone, Copy, Debug, PartialEq, Eq, Structural)]
pub struct MessageRecord {
    pub message_type: u32,
    pub timestamp: u64,
}

/// Handles decoded agent-movement messages.
#[derive(Debug)]
pub struct AgentMovementHandler;

impl AgentMovementHandler {
    pub fn new() -> Self {
        AgentMovementHandler
    }

    /// The wire message type this handler answers for.
    pub fn get_message_type(&self) -> (r: u32)
        ensures
            r == 1,
    {
        1
    }

    /// Turns a decoded movement message into a movement event record,
    /// stamped with the caller's clock.
    pub fn handle_message(&self, _header: &OSMessageHeader, _payload: &[u8], now_ms: u64) -> (r:
        Result<StormEvent, ProtocolError>)
        ensures
            r matches Ok(ev) && ev == (StormEvent {
                event_id: 0,
                event_type: 1001,
                priority: 1,
                ai_enhancement_level: 128,
                timestamp: now_ms,
                source_component: 1,
                target_component: 0,
                data_size: 0,
                ai_confidence_pm: 900,
                processing_flags: 0,
            }),
    {
        Ok(
            StormEvent {
                event_id: 0,
                event_type: 1001,
                priority: MessagePriority::High.rank(),
                ai_enhancement_level: 128,
                timestamp: now_ms,
                source_component: 1,
                target_component: 0,
                data_size: 0,
                ai_confidence_pm: 900,
                processing_flags: 0,
            },
        )
    }
}

/// Handles decoded chat messages.
#[derive(Debug)]
pub struct ChatMessageHandler;

impl ChatMessageHandler {
    pub fn new() -> Self {
        ChatMessageHandler
    }

    /// The wire message type this handler answers for.
    pub fn get_message_type(&self) -> (r: u32)
        ensures
            r == 2,
    {
        2
    }

    /// Turns a decoded chat message into a chat event record, stamped with
    /// the caller's clock.
    pub fn handle_message(&self, _header: &OSMessageHeader, _payload: &[u8], now_ms: u64) -> (r:
        Result<StormEvent, ProtocolError>)
        ensures
            r matches Ok(ev) && ev == (StormEvent {
                event_id: 0,
                event_type: 1002,
                priority: 2,
                ai_enhancement_level: 64,
                timestamp: now_ms,
                source_component: 1,
                target_component: 0,
                data_size: 0,
                ai_confidence_pm: 800,
                processing_flags: 0,
            }),
    {
        Ok(
            StormEvent {
                event_id: 0,
                event_type: 1002,
                priority: MessagePriority::Normal.rank(),
                ai_enhancement_level: 64,
                timestamp: now_ms,
                source_component: 1,
                target_component: 0,
                data_size: 0,
                ai_confidence_pm: 800,
                processing_flags: 0,
            },
        )
    }
}

/// Handles decoded object-update messages.
#[derive(Debug)]
pub struct ObjectUpdateHandler;

impl ObjectUpdateHandler {
    pub fn new() -> Self {
        ObjectUpdateHandler
    }

    /// The wire message type this handler answers for.
    pub fn get_message_type(&self) -> (r: u32)
        ensures
            r == 3,
    {
        3
    }

    /// Turns a decoded object update into an object event record, stamped
    /// with the caller's clock.
    pub fn handle_message(&self, _header: &OSMessageHeader, _payload: &[u8], now_ms: u64) -> (r:
        Result<StormEvent, ProtocolError>)
        ensures
            r matches Ok(ev) && ev == (StormEvent {
                event_id: 0,
                event_type: 1003,
                priority: 1,
                ai_enhancement_level: 128,
                timestamp: now_ms,
                source_component: 1,
                target_component: 0,
                data_size: 0,
                ai_confidence_pm: 850,
                processing_flags: 0,
            }),
    {
        Ok(
            StormEvent {
                event_id: 0,
                event_type: 1003,
                priority: MessagePriority::High.rank(),
                ai_enhancement_level: 128,
                timestamp: now_ms,
                source_component: 1,
                target_component: 0,
                data_size: 0,
                ai_confidence_pm: 850,
                processing_flags: 0,
            },
        )
    }
}

/// Handles decoded region-handshake messages.
#[derive(Debug)]
pub struct RegionHandshakeHandler;

impl RegionHandshakeHandler {
    pub fn new() -> Self {
        RegionHandshakeHandler
    }

    /// The wire message type this handler answers for.
    pub fn get_message_type(&self) -> (r: u32)
        ensures
            r == 4,
    {
        4
    }

    /// Turns a decoded region handshake into a region event record,
    /// stamped with the caller's clock.
    pub fn handle_message(&self, _header: &OSMessageHeader, _payload: &[u8], now_ms: u64) -> (r:
        Result<StormEvent, ProtocolError>)
        ensures
            r matches Ok(ev) && ev == (StormEvent {
                event_id: 0,
                event_type: 1004,
                priority: 0,
                ai_enhancement_level: 200,
                timestamp: now_ms,
                source_component: 1,
                target_component: 0,
                data_size: 0,
                ai_confidence_pm: 950,
                processing_flags: 0,
            }),
    {
        Ok(
            StormEvent {
                event_id: 0,
                event_type: 1004,
                priority: MessagePriority::Critical.rank(),
                ai_enhancement_level: 200,
                timestamp: now_ms,
                source_component: 1,
                target_component: 0,
                data_size: 0,
                ai_confidence_pm: 950,
                processing_flags: 0,
            },
        )
    }
}

} // verus!
