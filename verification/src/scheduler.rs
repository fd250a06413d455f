//! Priority- and budget-aware system scheduling.
//!
//! Systems are registered once into ascending-priority order and described by
//! a name, a priority tier, resource hints and a parallel-eligibility flag.
//! Each frame the scheduler plans an execution strategy from the systems'
//! rolling statistics and the frame context, the plan is run system by
//! system, each report of duration and success feeds the statistics, and a
//! system that overruns its share of the remaining frame budget while sitting
//! at low urgency cuts the frame short.  Durations and budgets are in
//! microseconds; rates and load factors are per-mille.

use vstd::prelude::*;
use vstd::pervasive::VecAdditionalExecFns;

verus! {

/// The frame-time budget the manager assumes when the host gives none:
/// one frame at 60 frames per second, in microseconds.
pub const FRAME_BUDGET_US: u64 = 16670;

/// A system whose smoothed execution time is below this counts as fast when
/// the planner decides whether adaptive execution is worthwhile.
pub const FAST_SYSTEM_THRESHOLD_US: u64 = 5000;

/// How many frame-metric entries the performance monitor retains.
pub const FRAME_HISTORY_CAP: usize = 1000;

/// System execution priority; a lower rank is more urgent.
#[derive(Clone, Copy, Debug, PartialEq, Eq, Structural)]
pub enum SystemPriority {
    Critical,
    High,
    Normal,
    Low,
    Deferred,
}

/// The numeric rank of a priority tier: 0 for the most urgent tier,
/// growing as urgency falls.
pub open spec fn rank_of(p: SystemPriority) -> int {
    match p {
        SystemPriority::Critical => 0,
        SystemPriority::High => 1,
        SystemPriority::Normal => 2,
        SystemPriority::Low => 3,
        SystemPriority::Deferred => 4,
    }
}

impl SystemPriority {
    pub fn rank(&self) -> (r: u8)
        ensures
            r as int == rank_of(*self),
    {
        match self {
            SystemPriority::Critical => 0,
            SystemPriority::High => 1,
            SystemPriority::Normal => 2,
            SystemPriority::Low => 3,
            SystemPriority::Deferred => 4,
        }
    }
}

/// Performance tier of the host device, for adaptive quality.
#[derive(Clone, Copy, Debug, PartialEq, Eq, Structural)]
pub enum PerformanceTier {
    High,
    Medium,
    Low,
    Battery,
}

/// Coarse resource demands a system declares at registration.
#[derive(Clone, Copy, Debug, PartialEq, Eq, Structural)]
pub struct SystemResourceHints {
    pub cpu_intensive: bool,
    pub memory_intensive: bool,
    pub gpu_required: bool,
    pub network_dependent: bool,
    pub disk_io_required: bool,
}

impl Default for SystemResourceHints {
    /// No demands declared.
    fn default() -> (r: Self)
        ensures
            !r.cpu_intensive,
            !r.memory_intensive,
            !r.gpu_required,
            !r.network_dependent,
            !r.disk_io_required,
    {
        SystemResourceHints {
            cpu_intensive: false,
            memory_intensive: false,
            gpu_required: false,
            network_dependent: false,
            disk_io_required: false,
        }
    }
}

/// Two hint bundles contend when both demand the same scarce resource.
pub open spec fn hints_conflict(a: SystemResourceHints, b: SystemResourceHints) -> bool {
    (a.gpu_required && b.gpu_required) || (a.cpu_intensive && b.cpu_intensive) || (
    a.memory_intensive && b.memory_intensive)
}

/// The per-frame context the host hands to the scheduler.
pub struct AIContext {
    pub frame_time_budget_us: u64,
    pub system_load_factor_pm: u32,
    pub predicted_entity_count: u32,
    pub performance_tier: PerformanceTier,
    pub optimization_hints: Vec<String>,
}

/// Coarse resource use recorded alongside a system's statistics.
#[derive(Clone, Copy, Debug, PartialEq, Eq, Structural)]
pub struct ResourceUsage {
    pub cpu_pm: u32,
    pub memory_kb: u64,
    pub gpu_required: bool,
}

/// The exponentially smoothed average after one more sample, with smoothing
/// factor one tenth.
pub open spec fn smoothed(old_avg: u64, sample: u64) -> int {
    ((sample as int) + 9 * (old_avg as int)) / 10
}

/// Rolling execution statistics of one registered system.
#[derive(Clone, Copy, Debug, PartialEq, Eq, Structural)]
pub struct SystemExecutionStats {
    pub total_executions: u64,
    pub average_execution_time_us: u64,
    pub max_execution_time_us: u64,
    pub success_rate_pm: u32,
    pub resource_usage: ResourceUsage,
}

impl SystemExecutionStats {
    /// The success rate is a per-mille value.
    pub open spec fn well_formed(&self) -> bool {
        self.success_rate_pm <= 1000
    }

    /// What the statistics look like after recording one execution of
    /// `duration_us` that did or did not succeed.
    pub open spec fn recorded(self, duration_us: u64, success: bool) -> SystemExecutionStats {
        SystemExecutionStats {
            total_executions: if self.total_executions == u64::MAX {
                u64::MAX
            } else {
                (self.total_executions + 1) as u64
            },
            average_execution_time_us: smoothed(self.average_execution_time_us, duration_us) as u64,
            max_execution_time_us: if duration_us > self.max_execution_time_us {
                duration_us
            } else {
                self.max_execution_time_us
            },
            success_rate_pm: (((if success {
                1000int
            } else {
                0int
            }) + 9 * (self.success_rate_pm as int)) / 10) as u32,
            resource_usage: self.resource_usage,
        }
    }

    /// Fresh statistics: nothing executed yet, full success assumed.
    pub fn new() -> (r: Self)
        ensures
            r == (SystemExecutionStats {
                total_executions: 0,
                average_execution_time_us: 0,
                max_execution_time_us: 0,
                success_rate_pm: 1000,
                resource_usage: ResourceUsage { cpu_pm: 0, memory_kb: 0, gpu_required: false },
            }),
            r.well_formed(),
    {
        SystemExecutionStats {
            total_executions: 0,
            average_execution_time_us: 0,
            max_execution_time_us: 0,
            success_rate_pm: 1000,
            resource_usage: ResourceUsage { cpu_pm: 0, memory_kb: 0, gpu_required: false },
        }
    }

    /// Folds one execution into the rolling statistics: the execution count
    /// grows, the average moves by exponential smoothing, the maximum and
    /// the success rate are updated.
    pub fn record_execution(&mut self, duration_us: u64, success: bool)
        requires
            old(self).well_formed(),
        ensures
            *final(self) == old(self).recorded(duration_us, success),
            final(self).well_formed(),
    {
        if self.total_executions < u64::MAX {
            self.total_executions = self.total_executions + 1;
        }
        let avg128: u128 = ((duration_us as u128) + 9 * (self.average_execution_time_us as u128))
            / 10;
        proof {
            assert(avg128 <= u64::MAX) by {
                assert((duration_us as int) + 9 * (self.average_execution_time_us as int)
                    <= 10 * (u64::MAX as int));
            };
        }
        self.average_execution_time_us = avg128 as u64;
        if duration_us > self.max_execution_time_us {
            self.max_execution_time_us = duration_us;
        }
        let sample_pm: u32 = if success {
            1000
        } else {
            0
        };
        let rate: u32 = (sample_pm + 9 * self.success_rate_pm) / 10;
        self.success_rate_pm = rate;
    }
}

/// A registered system: its name, priority tier, resource hints and whether
/// it may run in a parallel group.
pub struct SystemDescriptor {
    pub name: String,
    pub priority: SystemPriority,
    pub resource_hints: SystemResourceHints,
    pub supports_parallel: bool,
}

/// How the systems of one frame are dispatched.
#[derive(Clone, Copy, Debug, PartialEq, Eq, Structural)]
pub enum ExecutionStrategy {
    Sequential,
    Parallel,
    Adaptive,
}

/// The ordered dispatch decision for one frame.
pub struct SystemExecutionPlan {
    pub execution_strategy: ExecutionStrategy,
    pub system_order: Vec<usize>,
    pub parallel_groups: Vec<Vec<usize>>,
    pub sequential_batches: Vec<Vec<usize>>,
}

/// What the planner concluded from the systems' statistics.
#[derive(Clone, Copy, Debug, PartialEq, Eq, Structural)]
pub struct PerformanceAnalysis {
    pub should_use_adaptive: bool,
    pub recommended_parallel_groups: usize,
    pub frame_time_pressure: bool,
}

/// One retained frame-metrics entry.
#[derive(Clone, Copy, Debug, PartialEq, Eq, Structural)]
pub struct FrameMetrics {
    pub delta_time_us: u64,
    pub execution_strategy: ExecutionStrategy,
    pub total_systems: usize,
}

/// The summary the monitor offers for building a frame context.
pub struct SystemPerformanceMetrics {
    pub average_system_load_pm: u32,
    pub predicted_entity_count: u32,
    pub current_performance_tier: PerformanceTier,
    pub system_efficiency_scores: Vec<(usize, u32)>,
}

/// How many of the statistics entries describe a fast system, one whose
/// smoothed execution time is under the fast-system threshold.
pub open spec fn fast_count(stats: Seq<SystemExecutionStats>) -> int
    decreases stats.len(),
{
    if stats.len() == 0 {
        0
    } else {
        fast_count(stats.drop_last()) + if stats.last().average_execution_time_us
            < FAST_SYSTEM_THRESHOLD_US {
            1int
        } else {
            0int
        }
    }
}

/// Whether the planner prefers adaptive execution: a majority of systems
/// have historically short execution times.
pub open spec fn adaptive_preferred(stats: Seq<SystemExecutionStats>) -> bool {
    fast_count(stats) > stats.len() / 2
}

/// The strategy chosen for a frame: parallel on a high performance tier,
/// adaptive when most systems are fast, sequential otherwise.
pub open spec fn chosen_strategy(
    stats: Seq<SystemExecutionStats>,
    tier: PerformanceTier,
) -> ExecutionStrategy {
    if tier == PerformanceTier::High {
        ExecutionStrategy::Parallel
    } else if adaptive_preferred(stats) {
        ExecutionStrategy::Adaptive
    } else {
        ExecutionStrategy::Sequential
    }
}

/// Whether `order` is the identity order `0, 1, .., n-1`.
pub open spec fn identity_order(order: Seq<usize>, n: int) -> bool {
    order.len() == n && forall|j: int| 0 <= j < n ==> order[j] == j
}

/// Plans execution order and strategy and records resource conflicts
/// between registered systems.
pub struct IntelligentScheduler {
    system_names: Vec<String>,
    system_hints: Vec<SystemResourceHints>,
    resource_conflicts: Vec<Vec<usize>>,
}

impl IntelligentScheduler {
    pub closed spec fn names(&self) -> Seq<String> {
        self.system_names@
    }

    pub closed spec fn hints(&self) -> Seq<SystemResourceHints> {
        self.system_hints@
    }

    pub closed spec fn conflict_lists(&self) -> Seq<Vec<usize>> {
        self.resource_conflicts@
    }

    pub open spec fn well_formed(&self) -> bool {
        &&& self.names().len() == self.hints().len()
        &&& self.conflict_lists().len() == self.hints().len()
    }

    pub fn new() -> (r: Self)
        ensures
            r.well_formed(),
            r.names() == Seq::<String>::empty(),
            r.hints() == Seq::<SystemResourceHints>::empty(),
    {
        IntelligentScheduler {
            system_names: Vec::new(),
            system_hints: Vec::new(),
            resource_conflicts: Vec::new(),
        }
    }

    fn has_resource_conflict(
        &self,
        hints1: &SystemResourceHints,
        hints2: &SystemResourceHints,
    ) -> (r: bool)
        ensures
            r == hints_conflict(*hints1, *hints2),
    {
        (hints1.gpu_required && hints2.gpu_required) || (hints1.cpu_intensive
            && hints2.cpu_intensive) || (hints1.memory_intensive && hints2.memory_intensive)
    }

    /// Records a system and which already-registered systems it contends
    /// with for the same scarce resource.
    pub fn register_system(&mut self, system_name: String, resource_hints: SystemResourceHints)
        requires
            old(self).well_formed(),
        ensures
            final(self).well_formed(),
            final(self).names() == old(self).names().push(system_name),
            final(self).hints() == old(self).hints().push(resource_hints),
            final(self).conflict_lists().len() == old(self).conflict_lists().len() + 1,
            forall|j: int|
                0 <= j < old(self).conflict_lists().len()
                    ==> final(self).conflict_lists()[j] == old(self).conflict_lists()[j],
            forall|j: int|
                0 <= j < old(self).hints().len()
                    ==> (final(self).conflict_lists().last()@.contains(j as usize)
                        <==> hints_conflict(resource_hints, old(self).hints()[j])),
    {
        let n = self.system_hints.len();
        let mut found: Vec<usize> = Vec::new();
        let mut j: usize = 0;
        while j < n
            invariant
                n == self.system_hints@.len(),
                j <= n,
                forall|w: int|
                    0 <= w < j
                        ==> (found@.contains(w as usize)
                            <==> hints_conflict(resource_hints, self.system_hints@[w])),
                forall|w: int| 0 <= w < found@.len() ==> found@[w] < j,
            decreases n - j,
        {
            let ghost prev = found@;
            if self.has_resource_conflict(&resource_hints, &self.system_hints[j]) {
                found.push(j);
                proof {
                    assert(found@ == prev.push(j));
                    assert forall|w: int| 0 <= w < j + 1
                        implies (found@.contains(w as usize)
                            <==> hints_conflict(resource_hints, self.system_hints@[w])) by {
                        if w < j {
                            if prev.contains(w as usize) {
                                let p = choose|p: int|
                                    0 <= p < prev.len() && prev[p] == w as usize;
                                assert(found@[p] == w as usize);
                                assert(found@.contains(w as usize));
                            }
                            if found@.contains(w as usize) {
                                let p = choose|p: int|
                                    0 <= p < found@.len() && found@[p] == w as usize;
                                if p == found@.len() - 1 {
                                    assert(found@[p] == j as usize);
                                } else {
                                    assert(prev[p] == w as usize);
                                    assert(prev.contains(w as usize));
                                }
                            }
                        } else {
                            assert(found@[found@.len() - 1] == j as usize);
                            assert(found@.contains(j as usize));
                        }
                    };
                }
            } else {
                proof {
                    assert forall|w: int| 0 <= w < j + 1
                        implies (found@.contains(w as usize)
                            <==> hints_conflict(resource_hints, self.system_hints@[w])) by {
                        if w == j {
                            if found@.contains(j as usize) {
                                let p = choose|p: int|
                                    0 <= p < found@.len() && found@[p] == j as usize;
                                assert(found@[p] < j);
                            }
                        }
                    };
                }
            }
            j = j + 1;
        }
        self.system_names.push(system_name);
        self.system_hints.push(resource_hints);
        self.resource_conflicts.push(found);
    }

    /// The hint strings the scheduler offers the host.
    pub fn get_optimization_hints(&self) -> (r: Vec<String>)
        ensures
            r@.len() == 3,
            r@[0]@ == "Consider parallel execution for independent systems"@,
            r@[1]@ == "Monitor frame time budget to skip low-priority systems"@,
            r@[2]@ == "Cache component queries for frequently accessed data"@,
    {
        let mut hints: Vec<String> = Vec::new();
        hints.push("Consider parallel execution for independent systems".to_owned());
        hints.push("Monitor frame time budget to skip low-priority systems".to_owned());
        hints.push("Cache component queries for frequently accessed data".to_owned());
        hints
    }

    /// Counts the systems whose smoothed execution time marks them as fast.
    fn count_fast(&self, execution_stats: &Vec<SystemExecutionStats>) -> (r: usize)
        ensures
            r == fast_count(execution_stats@),
    {
        let n = execution_stats.len();
        let mut count: usize = 0;
        let mut i: usize = 0;
        while i < n
            invariant
                n == execution_stats@.len(),
                i <= n,
                count == fast_count(execution_stats@.take(i as int)),
                count <= i,
            decreases n - i,
        {
            proof {
                assert(execution_stats@.take(i + 1 as int).drop_last()
                    =~= execution_stats@.take(i as int));
                assert(execution_stats@.take(i + 1 as int).last() == execution_stats@[i as int]);
            }
            if execution_stats[i].average_execution_time_us < FAST_SYSTEM_THRESHOLD_US {
                count = count + 1;
            }
            i = i + 1;
        }
        proof {
            assert(execution_stats@.take(n as int) == execution_stats@);
        }
        count
    }

    /// Summarizes the statistics: whether adaptive execution is preferred,
    /// how many parallel groups look worthwhile, and whether the frame
    /// budget itself is tight.
    pub fn analyze_system_performance(
        &self,
        execution_stats: &Vec<SystemExecutionStats>,
        ai_context: &AIContext,
    ) -> (r: PerformanceAnalysis)
        ensures
            r.should_use_adaptive == adaptive_preferred(execution_stats@),
            r.recommended_parallel_groups == if fast_count(execution_stats@) / 4 > 1 {
                fast_count(execution_stats@) / 4
            } else {
                1int
            },
            r.frame_time_pressure == (ai_context.frame_time_budget_us < 16000),
    {
        let total = execution_stats.len();
        let fast = self.count_fast(execution_stats);
        let groups = fast / 4;
        PerformanceAnalysis {
            should_use_adaptive: fast > total / 2,
            recommended_parallel_groups: if groups > 1 {
                groups
            } else {
                1
            },
            frame_time_pressure: ai_context.frame_time_budget_us < 16000,
        }
    }

    /// Builds the identity order `0, 1, .., n-1`; the systems are kept
    /// priority-sorted since registration, so this order honors priority.
    fn identity_positions(n: usize) -> (r: Vec<usize>)
        ensures
            identity_order(r@, n as int),
    {
        let mut order: Vec<usize> = Vec::new();
        let mut i: usize = 0;
        while i < n
            invariant
                i <= n,
                order@.len() == i,
                forall|j: int| 0 <= j < i ==> order@[j] == j,
            decreases n - i,
        {
            order.push(i);
            i = i + 1;
        }
        order
    }

    fn create_parallel_execution_plan(&self, n: usize) -> (r: SystemExecutionPlan)
        ensures
            r.execution_strategy == ExecutionStrategy::Parallel,
            identity_order(r.system_order@, n as int),
            r.parallel_groups@.len() == 1,
            identity_order(r.parallel_groups@[0]@, n as int),
            r.sequential_batches@.len() == 0,
    {
        let order = Self::identity_positions(n);
        let group = Self::identity_positions(n);
        let mut groups: Vec<Vec<usize>> = Vec::new();
        groups.push(group);
        SystemExecutionPlan {
            execution_strategy: ExecutionStrategy::Parallel,
            system_order: order,
            parallel_groups: groups,
            sequential_batches: Vec::new(),
        }
    }

    fn create_sequential_execution_plan(&self, n: usize) -> (r: SystemExecutionPlan)
        ensures
            r.execution_strategy == ExecutionStrategy::Sequential,
            identity_order(r.system_order@, n as int),
            r.parallel_groups@.len() == 0,
            r.sequential_batches@.len() == 1,
            identity_order(r.sequential_batches@[0]@, n as int),
    {
        let order = Self::identity_positions(n);
        let batch = Self::identity_positions(n);
        let mut batches: Vec<Vec<usize>> = Vec::new();
        batches.push(batch);
        SystemExecutionPlan {
            execution_strategy: ExecutionStrategy::Sequential,
            system_order: order,
            parallel_groups: Vec::new(),
            sequential_batches: batches,
        }
    }

    fn create_adaptive_execution_plan(
        &self,
        n: usize,
        _performance_analysis: &PerformanceAnalysis,
    ) -> (r: SystemExecutionPlan)
        ensures
            r.execution_strategy == ExecutionStrategy::Adaptive,
            identity_order(r.system_order@, n as int),
            r.parallel_groups@.len() == 1,
            identity_order(r.parallel_groups@[0]@, n as int),
            r.sequential_batches@.len() == 1,
            identity_order(r.sequential_batches@[0]@, n as int),
    {
        let order = Self::identity_positions(n);
        let group = Self::identity_positions(n);
        let batch = Self::identity_positions(n);
        let mut groups: Vec<Vec<usize>> = Vec::new();
        groups.push(group);
        let mut batches: Vec<Vec<usize>> = Vec::new();
        batches.push(batch);
        SystemExecutionPlan {
            execution_strategy: ExecutionStrategy::Adaptive,
            system_order: order,
            parallel_groups: groups,
            sequential_batches: batches,
        }
    }

    /// Chooses the strategy for this frame from the device tier and the
    /// systems' statistics, and materializes the ordered plan: systems run
    /// in their registered (priority-sorted) order under every strategy.
    pub fn create_execution_plan(
        &self,
        systems: &Vec<SystemDescriptor>,
        execution_stats: &Vec<SystemExecutionStats>,
        ai_context: &AIContext,
    ) -> (r: SystemExecutionPlan)
        ensures
            r.execution_strategy == chosen_strategy(
                execution_stats@,
                ai_context.performance_tier,
            ),
            identity_order(r.system_order@, systems@.len() as int),
    {
        let n = systems.len();
        let performance_analysis = self.analyze_system_performance(execution_stats, ai_context);
        if ai_context.performance_tier == PerformanceTier::High {
            self.create_parallel_execution_plan(n)
        } else if performance_analysis.should_use_adaptive {
            self.create_adaptive_execution_plan(n, &performance_analysis)
        } else {
            self.create_sequential_execution_plan(n)
        }
    }
}

/// Retains bounded frame metrics and summarizes current conditions.
pub struct SystemPerformanceMonitor {
    frame_metrics: Vec<FrameMetrics>,
}

impl SystemPerformanceMonitor {
    /// The retained frame metrics, oldest first.
    pub closed spec fn history(&self) -> Seq<FrameMetrics> {
        self.frame_metrics@
    }

    pub open spec fn well_formed(&self) -> bool {
        self.history().len() <= FRAME_HISTORY_CAP
    }

    pub fn new() -> (r: Self)
        ensures
            r.well_formed(),
            r.history() == Seq::<FrameMetrics>::empty(),
    {
        SystemPerformanceMonitor { frame_metrics: Vec::new() }
    }

    /// Appends one frame's metrics, dropping the oldest entry once the
    /// bounded history is full.
    pub fn record_frame_metrics(&mut self, execution_plan: &SystemExecutionPlan, delta_time_us: u64)
        requires
            old(self).well_formed(),
        ensures
            final(self).well_formed(),
            final(self).history() == if old(self).history().len() < FRAME_HISTORY_CAP {
                old(self).history().push(
                    FrameMetrics {
                        delta_time_us,
                        execution_strategy: execution_plan.execution_strategy,
                        total_systems: execution_plan.system_order@.len() as usize,
                    },
                )
            } else {
                old(self).history().skip(1).push(
                    FrameMetrics {
                        delta_time_us,
                        execution_strategy: execution_plan.execution_strategy,
                        total_systems: execution_plan.system_order@.len() as usize,
                    },
                )
            },
    {
        let entry = FrameMetrics {
            delta_time_us,
            execution_strategy: execution_plan.execution_strategy,
            total_systems: execution_plan.system_order.len(),
        };
        if self.frame_metrics.len() >= FRAME_HISTORY_CAP {
            self.frame_metrics.remove(0);
        }
        self.frame_metrics.push(entry);
    }

    /// The monitor's current summary for building a frame context.
    pub fn get_current_metrics(&self) -> (r: SystemPerformanceMetrics)
        ensures
            r.average_system_load_pm == 500,
            r.predicted_entity_count == 1000,
            r.current_performance_tier == PerformanceTier::High,
            r.system_efficiency_scores@.len() == 0,
    {
        SystemPerformanceMetrics {
            average_system_load_pm: 500,
            predicted_entity_count: 1000,
            current_performance_tier: PerformanceTier::High,
            system_efficiency_scores: Vec::new(),
        }
    }
}

/// One executed system's outcome for a frame: how long its update took and
/// whether it reported completion.
#[derive(Clone, Copy, Debug, PartialEq, Eq, Structural)]
pub struct SystemReport {
    pub duration_us: u64,
    pub success: bool,
}

/// Where a system of rank `r` is inserted into the ascending-priority order
/// `ss`: before the first entry of strictly lower urgency, so that it lands
/// after every already-registered system of its own tier.
pub open spec fn insert_position(ss: Seq<SystemDescriptor>, r: int) -> int
    decreases ss.len(),
{
    if ss.len() == 0 {
        0
    } else if rank_of(ss[0].priority) > r {
        0
    } else {
        1 + insert_position(ss.skip(1), r)
    }
}

proof fn lemma_insert_position_props(ss: Seq<SystemDescriptor>, r: int)
    ensures
        0 <= insert_position(ss, r) <= ss.len(),
        forall|j: int| 0 <= j < insert_position(ss, r) ==> rank_of(ss[j].priority) <= r,
        insert_position(ss, r) < ss.len() ==> rank_of(ss[insert_position(ss, r)].priority) > r,
    decreases ss.len(),
{
    if ss.len() == 0 {
    } else if rank_of(ss[0].priority) > r {
    } else {
        lemma_insert_position_props(ss.skip(1), r);
        let ip = insert_position(ss, r);
        assert forall|j: int| 0 <= j < ip implies rank_of(ss[j].priority) <= r by {
            if j > 0 {
                assert(ss.skip(1)[j - 1] == ss[j]);
            }
        };
        if ip < ss.len() {
            assert(ss.skip(1)[ip - 1] == ss[ip]);
        }
    }
}

/// How many systems of `order` run before the frame is cut short: each
/// system consumes its reported duration from the remaining budget, and one
/// that exceeds four fifths of the budget remaining at its start while
/// holding Low or lower urgency is the last to run.
pub open spec fn run_len(
    ss: Seq<SystemDescriptor>,
    rs: Seq<SystemReport>,
    order: Seq<usize>,
    remaining: int,
) -> int
    decreases order.len(),
{
    if order.len() == 0 {
        0
    } else {
        let i = order[0] as int;
        let d = rs[i].duration_us as int;
        if 5 * d > 4 * remaining && rank_of(ss[i].priority) >= 3 {
            1
        } else {
            1 + run_len(
                ss,
                rs,
                order.skip(1),
                if remaining - d >= 0 {
                    remaining - d
                } else {
                    0
                },
            )
        }
    }
}

/// Keeps the registered systems in ascending-priority order together with
/// their rolling statistics, plans each frame and folds execution reports
/// back into the statistics.
pub struct AISystemManager {
    systems: Vec<SystemDescriptor>,
    execution_stats: Vec<SystemExecutionStats>,
    scheduler: IntelligentScheduler,
    performance_monitor: SystemPerformanceMonitor,
}

impl AISystemManager {
    /// The registered systems, in ascending-priority order.
    pub closed spec fn systems_seq(&self) -> Seq<SystemDescriptor> {
        self.systems@
    }

    /// The statistics entry of each registered system, aligned with
    /// `systems_seq`.
    pub closed spec fn stats_seq(&self) -> Seq<SystemExecutionStats> {
        self.execution_stats@
    }

    pub closed spec fn spec_scheduler(&self) -> IntelligentScheduler {
        self.scheduler
    }

    pub closed spec fn monitor(&self) -> SystemPerformanceMonitor {
        self.performance_monitor
    }

    /// Statistics run parallel to systems, the list is sorted by ascending
    /// priority rank, and every statistics entry is itself well formed.
    pub open spec fn well_formed(&self) -> bool {
        &&& self.stats_seq().len() == self.systems_seq().len()
        &&& forall|a: int, b: int|
            0 <= a < b < self.systems_seq().len()
                ==> rank_of(self.systems_seq()[a].priority)
                    <= rank_of(self.systems_seq()[b].priority)
        &&& forall|i: int|
            0 <= i < self.stats_seq().len() ==> (#[trigger] self.stats_seq()[i]).well_formed()
        &&& self.spec_scheduler().well_formed()
        &&& self.monitor().well_formed()
    }

    pub fn new() -> (r: Self)
        ensures
            r.well_formed(),
            r.systems_seq() == Seq::<SystemDescriptor>::empty(),
            r.stats_seq() == Seq::<SystemExecutionStats>::empty(),
            r.monitor().history() == Seq::<FrameMetrics>::empty(),
    {
        AISystemManager {
            systems: Vec::new(),
            execution_stats: Vec::new(),
            scheduler: IntelligentScheduler::new(),
            performance_monitor: SystemPerformanceMonitor::new(),
        }
    }

    /// How many systems are registered.
    pub fn system_count(&self) -> (r: usize)
        ensures
            r == self.systems_seq().len(),
    {
        self.systems.len()
    }

    /// The registered system at `i`, in ascending-priority order.
    pub fn system_at(&self, i: usize) -> (r: &SystemDescriptor)
        requires
            i < self.systems_seq().len(),
        ensures
            *r == self.systems_seq()[i as int],
    {
        &self.systems[i]
    }

    /// The statistics of the system at `i`.
    pub fn stats_at(&self, i: usize) -> (r: &SystemExecutionStats)
        requires
            i < self.stats_seq().len(),
        ensures
            *r == self.stats_seq()[i as int],
    {
        &self.execution_stats[i]
    }

    /// Registers `system` into priority-sorted position — after every
    /// already-registered system of equal priority — with fresh statistics,
    /// and records its resource conflicts with the systems registered
    /// before it.
    pub fn register_system(&mut self, system: SystemDescriptor)
        requires
            old(self).well_formed(),
        ensures
            final(self).well_formed(),
            final(self).systems_seq() == old(self).systems_seq().insert(
                insert_position(old(self).systems_seq(), rank_of(system.priority)),
                system,
            ),
            final(self).stats_seq() == old(self).stats_seq().insert(
                insert_position(old(self).systems_seq(), rank_of(system.priority)),
                (SystemExecutionStats {
                    total_executions: 0,
                    average_execution_time_us: 0,
                    max_execution_time_us: 0,
                    success_rate_pm: 1000,
                    resource_usage: ResourceUsage { cpu_pm: 0, memory_kb: 0, gpu_required: false },
                }),
            ),
            final(self).monitor() == old(self).monitor(),
    {
        let n = self.systems.len();
        let r = system.priority.rank();
        let mut pos: usize = 0;
        while pos < n && self.systems[pos].priority.rank() <= r
            invariant
                n == self.systems@.len(),
                pos <= n,
                r as int == rank_of(system.priority),
                forall|j: int| 0 <= j < pos ==> rank_of(self.systems@[j].priority) <= r as int,
            decreases n - pos,
        {
            pos = pos + 1;
        }
        proof {
            lemma_insert_position_props(self.systems@, r as int);
            let ip = insert_position(self.systems@, r as int);
            if pos < ip {
                assert(rank_of(self.systems@[pos as int].priority) <= r as int);
            }
            if ip < pos {
                assert(rank_of(self.systems@[ip].priority) <= r as int);
            }
            assert(pos as int == ip);
        }
        let name = clone_name(&system.name);
        let hints = system.resource_hints;
        let ghost pre = *old(self);
        self.systems.insert(pos, system);
        self.execution_stats.insert(pos, SystemExecutionStats::new());
        self.scheduler.register_system(name, hints);
        proof {
            let ip = pos as int;
            assert forall|a: int, b: int|
                0 <= a < b < self.systems@.len()
                implies rank_of(self.systems@[a].priority)
                    <= rank_of(self.systems@[b].priority) by {
                let a0 = if a < ip { a } else { a - 1 };
                let b0 = if b < ip { b } else { b - 1 };
                if a == ip {
                    assert(self.systems@[a] == system);
                    assert(self.systems@[b] == pre.systems@[b0]);
                    assert(rank_of(pre.systems@[b0].priority) > r as int);
                } else if b == ip {
                    assert(self.systems@[b] == system);
                    assert(self.systems@[a] == pre.systems@[a0]);
                    assert(rank_of(pre.systems@[a0].priority) <= r as int);
                } else {
                    assert(self.systems@[a] == pre.systems@[a0]);
                    assert(self.systems@[b] == pre.systems@[b0]);
                    if a0 < b0 {
                        assert(rank_of(pre.systems@[a0].priority)
                            <= rank_of(pre.systems@[b0].priority));
                    } else {
                        assert(a0 == b0);
                    }
                }
            };
            assert forall|i: int|
                0 <= i < self.execution_stats@.len()
                implies (#[trigger] self.execution_stats@[i]).well_formed() by {
                let i0 = if i < ip { i } else { i - 1 };
                if i != ip {
                    assert(self.execution_stats@[i] == pre.execution_stats@[i0]);
                    assert(pre.execution_stats@[i0].well_formed());
                }
            };
            assert(self.well_formed());
        }
    }

    /// The frame context the manager builds when the host supplies none:
    /// the default frame budget and the monitor's current summary.
    pub fn create_ai_context(&self, _delta_time_us: u64) -> (r: AIContext)
        ensures
            r.frame_time_budget_us == FRAME_BUDGET_US,
            r.system_load_factor_pm == 500,
            r.predicted_entity_count == 1000,
            r.performance_tier == PerformanceTier::High,
            r.optimization_hints@.len() == 3,
    {
        let performance_metrics = self.performance_monitor.get_current_metrics();
        AIContext {
            frame_time_budget_us: FRAME_BUDGET_US,
            system_load_factor_pm: performance_metrics.average_system_load_pm,
            predicted_entity_count: performance_metrics.predicted_entity_count,
            performance_tier: performance_metrics.current_performance_tier,
            optimization_hints: self.scheduler.get_optimization_hints(),
        }
    }

    /// Runs the plan in order against the reported outcomes: each system's
    /// report is folded into its statistics, its duration is charged
    /// against the remaining frame budget, and a system that overruns four
    /// fifths of the remaining budget while holding Low or lower urgency
    /// stops the frame — the systems after it do not execute and their
    /// statistics are left untouched.  Returns the indices that executed,
    /// in order.
    pub fn execute_systems_sequential(
        &mut self,
        plan: &SystemExecutionPlan,
        ai_context: &AIContext,
        reports: &Vec<SystemReport>,
    ) -> (executed: Vec<usize>)
        requires
            old(self).well_formed(),
            forall|j: int|
                0 <= j < plan.system_order@.len()
                    ==> (#[trigger] plan.system_order@[j]) < old(self).systems_seq().len(),
            plan.system_order@.no_duplicates(),
            reports@.len() == old(self).systems_seq().len(),
        ensures
            final(self).well_formed(),
            final(self).systems_seq() == old(self).systems_seq(),
            final(self).spec_scheduler() == old(self).spec_scheduler(),
            final(self).monitor() == old(self).monitor(),
            final(self).stats_seq().len() == old(self).stats_seq().len(),
            executed@ == plan.system_order@.take(
                run_len(
                    old(self).systems_seq(),
                    reports@,
                    plan.system_order@,
                    ai_context.frame_time_budget_us as int,
                ),
            ),
            forall|i: int|
                0 <= i < old(self).stats_seq().len()
                    ==> final(self).stats_seq()[i] == if executed@.contains(i as usize) {
                        old(self).stats_seq()[i].recorded(
                            reports@[i].duration_us,
                            reports@[i].success,
                        )
                    } else {
                        old(self).stats_seq()[i]
                    },
    {
        let ghost ss = old(self).systems_seq();
        let ghost rs = reports@;
        let ghost order = plan.system_order@;
        let ghost budget = ai_context.frame_time_budget_us as int;
        let ghost total = run_len(ss, rs, order, budget);
        let n = plan.system_order.len();
        let stats_count = self.execution_stats.len();
        proof {
            assert(stats_count == self.execution_stats@.len());
            assert(order.skip(0) =~= order);
            assert(self.execution_stats@.len() <= usize::MAX);
        }
        let mut executed: Vec<usize> = Vec::new();
        let mut remaining: u64 = ai_context.frame_time_budget_us;
        let mut halted: bool = false;
        let mut pos: usize = 0;
        while pos < n && !halted
            invariant
                self.execution_stats@.len() <= usize::MAX,
                old(self).well_formed(),
                self.systems == old(self).systems,
                self.scheduler == old(self).scheduler,
                self.performance_monitor == old(self).performance_monitor,
                self.execution_stats@.len() == old(self).execution_stats@.len(),
                forall|i: int|
                    0 <= i < self.execution_stats@.len()
                        ==> (#[trigger] self.execution_stats@[i]).well_formed(),
                n == order.len(),
                order == plan.system_order@,
                rs == reports@,
                ss == old(self).systems_seq(),
                rs.len() == ss.len(),
                forall|j: int| 0 <= j < order.len() ==> (#[trigger] order[j]) < ss.len(),
                order.no_duplicates(),
                pos <= n,
                total == run_len(ss, rs, order, budget),
                !halted ==> executed@ == order.take(pos as int),
                !halted ==> total == pos + run_len(ss, rs, order.skip(pos as int), remaining as int),
                halted ==> executed@ == order.take(total),
                forall|i: int|
                    0 <= i < old(self).execution_stats@.len()
                        ==> self.execution_stats@[i] == if executed@.contains(i as usize) {
                            old(self).execution_stats@[i].recorded(
                                rs[i].duration_us,
                                rs[i].success,
                            )
                        } else {
                            old(self).execution_stats@[i]
                        },
            decreases n - pos,
        {
            let idx = plan.system_order[pos];
            let duration_us = reports[idx].duration_us;
            let success = reports[idx].success;
            let ghost statspre = self.execution_stats@;
            let mut st = self.execution_stats[idx];
            st.record_execution(duration_us, success);
            self.execution_stats.set(idx, st);
            let ghost prev_executed = executed@;
            executed.push(idx);
            proof {
                assert(executed@ == prev_executed.push(idx));
                assert(order.skip(pos as int)[0] == order[pos as int]);
                assert(executed@ == order.take(pos + 1 as int)) by {
                    assert(order.take(pos + 1 as int).drop_last() =~= order.take(pos as int));
                    assert(executed@.drop_last() == prev_executed);
                    assert(executed@ =~= order.take(pos + 1 as int));
                };
                assert(!prev_executed.contains(idx)) by {
                    if prev_executed.contains(idx) {
                        let w = choose|w: int|
                            0 <= w < prev_executed.len() && prev_executed[w] == idx;
                        assert(order[w] == idx);
                        assert(order[pos as int] == idx);
                    }
                };
                assert forall|i: int|
                    0 <= i < old(self).execution_stats@.len()
                    implies self.execution_stats@[i] == (if executed@.contains(i as usize) {
                        old(self).execution_stats@[i].recorded(rs[i].duration_us, rs[i].success)
                    } else {
                        old(self).execution_stats@[i]
                    }) by {
                    if i == idx as int {
                        assert(executed@[executed@.len() - 1] == idx);
                        assert(executed@.contains(idx));
                        assert(statspre[i] == old(self).execution_stats@[i]);
                    } else {
                        assert(self.execution_stats@[i] == statspre[i]);
                        if executed@.contains(i as usize) {
                            let w = choose|w: int|
                                0 <= w < executed@.len() && executed@[w] == i as usize;
                            if w == executed@.len() - 1 {
                                assert(executed@[w] == idx);
                                assert(i as usize == idx);
                                assert(i == idx as int);
                            }
                            assert(w < executed@.len() - 1);
                            assert(prev_executed[w] == i as usize);
                            assert(prev_executed.contains(i as usize));
                        }
                        if prev_executed.contains(i as usize) {
                            let w = choose|w: int|
                                0 <= w < prev_executed.len() && prev_executed[w] == i as usize;
                            assert(executed@[w] == i as usize);
                            assert(executed@.contains(i as usize));
                        }
                    }
                };
            }
            let overruns = (duration_us as u128) * 5 > (remaining as u128) * 4;
            let low_urgency = self.systems[idx].priority.rank() >= 3;
            if overruns && low_urgency {
                halted = true;
                proof {
                    assert(run_len(ss, rs, order.skip(pos as int), remaining as int) == 1);
                    assert(total == pos + 1);
                    assert(executed@ == order.take(total));
                }
            } else {
                proof {
                    let rem2 = if remaining as int - duration_us as int >= 0 {
                        remaining as int - duration_us as int
                    } else {
                        0
                    };
                    assert(run_len(ss, rs, order.skip(pos as int), remaining as int)
                        == 1 + run_len(ss, rs, order.skip(pos as int).skip(1), rem2));
                    assert(order.skip(pos as int).skip(1) =~= order.skip(pos + 1 as int));
                }
                remaining = if duration_us > remaining {
                    0
                } else {
                    remaining - duration_us
                };
            }
            pos = pos + 1;
        }
        proof {
            if !halted {
                assert(pos == n);
                assert(order.skip(n as int).len() == 0);
                assert(total == n);
                assert(executed@ == order.take(total));
            }
            assert(self.systems@ == old(self).systems@);
        }
        executed
    }

    /// One frame: build the default context, plan, execute against the
    /// reported outcomes, and append this frame's metrics to the bounded
    /// history.  `reports` holds one entry per registered system, in
    /// registration order.
    pub fn update_systems(&mut self, delta_time_us: u64, reports: &Vec<SystemReport>) -> (executed:
        Vec<usize>)
        requires
            old(self).well_formed(),
            reports@.len() == old(self).systems_seq().len(),
        ensures
            final(self).well_formed(),
            final(self).systems_seq() == old(self).systems_seq(),
            final(self).stats_seq().len() == old(self).stats_seq().len(),
            executed@ == Seq::new(old(self).systems_seq().len(), |i: int| i as usize).take(
                run_len(
                    old(self).systems_seq(),
                    reports@,
                    Seq::new(old(self).systems_seq().len(), |i: int| i as usize),
                    FRAME_BUDGET_US as int,
                ),
            ),
            forall|i: int|
                0 <= i < old(self).stats_seq().len()
                    ==> final(self).stats_seq()[i] == if executed@.contains(i as usize) {
                        old(self).stats_seq()[i].recorded(
                            reports@[i].duration_us,
                            reports@[i].success,
                        )
                    } else {
                        old(self).stats_seq()[i]
                    },
            final(self).monitor().history().len() <= FRAME_HISTORY_CAP,
            final(self).monitor().history().len() > 0,
            final(self).monitor().history().last().delta_time_us == delta_time_us,
    {
        let ai_context = self.create_ai_context(delta_time_us);
        let plan = self.scheduler.create_execution_plan(
            &self.systems,
            &self.execution_stats,
            &ai_context,
        );
        proof {
            assert(plan.system_order@.no_duplicates()) by {
                assert forall|a: int, b: int|
                    0 <= a < plan.system_order@.len() && 0 <= b < plan.system_order@.len() && a
                        != b implies plan.system_order@[a] != plan.system_order@[b] by {
                    assert(plan.system_order@[a] == a);
                    assert(plan.system_order@[b] == b);
                };
            };
            assert(plan.system_order@ =~= Seq::new(
                self.systems_seq().len(),
                |i: int| i as usize,
            ));
        }
        let executed = self.execute_systems_sequential(&plan, &ai_context, reports);
        self.performance_monitor.record_frame_metrics(&plan, delta_time_us);
        executed
    }
}

/// Moves entities by their velocity each frame; the arithmetic itself runs
/// in the embedding application, which registers this descriptor.
pub struct MovementSystem;

impl MovementSystem {
    pub fn name(&self) -> (r: &'static str)
        ensures
            r@ == "MovementSystem"@,
    {
        "MovementSystem"
    }

    pub fn priority(&self) -> (r: SystemPriority)
        ensures
            r == SystemPriority::High,
    {
        SystemPriority::High
    }

    pub fn resource_requirements(&self) -> (r: SystemResourceHints)
        ensures
            !r.cpu_intensive,
            !r.memory_intensive,
            !r.gpu_required,
            !r.network_dependent,
            !r.disk_io_required,
    {
        SystemResourceHints {
            cpu_intensive: false,
            memory_intensive: false,
            gpu_required: false,
            network_dependent: false,
            disk_io_required: false,
        }
    }

    pub fn supports_parallel_execution(&self) -> (r: bool)
        ensures
            r,
    {
        true
    }

    /// The descriptor under which this system registers.
    pub fn descriptor(&self) -> (r: SystemDescriptor)
        ensures
            r.name@ == "MovementSystem"@,
            r.priority == SystemPriority::High,
            r.supports_parallel,
    {
        SystemDescriptor {
            name: "MovementSystem".to_owned(),
            priority: SystemPriority::High,
            resource_hints: self.resource_requirements(),
            supports_parallel: true,
        }
    }
}

/// Draws visible entities; rendering work itself runs in the embedding
/// application, which registers this descriptor and counts frames here.
pub struct RenderSystem {
    pub frame_count: u64,
}

impl RenderSystem {
    pub fn new() -> (r: Self)
        ensures
            r.frame_count == 0,
    {
        RenderSystem { frame_count: 0 }
    }

    pub fn name(&self) -> (r: &'static str)
        ensures
            r@ == "RenderSystem"@,
    {
        "RenderSystem"
    }

    pub fn priority(&self) -> (r: SystemPriority)
        ensures
            r == SystemPriority::High,
    {
        SystemPriority::High
    }

    pub fn resource_requirements(&self) -> (r: SystemResourceHints)
        ensures
            r.cpu_intensive,
            r.memory_intensive,
            r.gpu_required,
            !r.network_dependent,
            !r.disk_io_required,
    {
        SystemResourceHints {
            cpu_intensive: true,
            memory_intensive: true,
            gpu_required: true,
            network_dependent: false,
            disk_io_required: false,
        }
    }

    pub fn supports_parallel_execution(&self) -> (r: bool)
        ensures
            !r,
    {
        false
    }

    /// Counts one more rendered frame, saturating at the counter's range.
    pub fn count_frame(&mut self)
        ensures
            final(self).frame_count == if old(self).frame_count == u64::MAX {
                u64::MAX
            } else {
                (old(self).frame_count + 1) as u64
            },
    {
        if self.frame_count < u64::MAX {
            self.frame_count = self.frame_count + 1;
        }
    }

    /// The descriptor under which this system registers.
    pub fn descriptor(&self) -> (r: SystemDescriptor)
        ensures
            r.name@ == "RenderSystem"@,
            r.priority == SystemPriority::High,
            !r.supports_parallel,
    {
        SystemDescriptor {
            name: "RenderSystem".to_owned(),
            priority: SystemPriority::High,
            resource_hints: self.resource_requirements(),
            supports_parallel: false,
        }
    }
}

/// Regenerates entity health over time; the arithmetic itself runs in the
/// embedding application, which registers this descriptor.
pub struct HealthSystem;

impl HealthSystem {
    pub fn name(&self) -> (r: &'static str)
        ensures
            r@ == "HealthSystem"@,
    {
        "HealthSystem"
    }

    pub fn priority(&self) -> (r: SystemPriority)
        ensures
            r == SystemPriority::Normal,
    {
        SystemPriority::Normal
    }

    pub fn resource_requirements(&self) -> (r: SystemResourceHints)
        ensures
            !r.cpu_intensive,
            !r.memory_intensive,
            !r.gpu_required,
            !r.network_dependent,
            !r.disk_io_required,
    {
        SystemResourceHints {
            cpu_intensive: false,
            memory_intensive: false,
            gpu_required: false,
            network_dependent: false,
            disk_io_required: false,
        }
    }

    pub fn supports_parallel_execution(&self) -> (r: bool)
        ensures
            r,
    {
        true
    }

    /// The descriptor under which this system registers.
    pub fn descriptor(&self) -> (r: SystemDescriptor)
        ensures
            r.name@ == "HealthSystem"@,
            r.priority == SystemPriority::Normal,
            r.supports_parallel,
    {
        SystemDescriptor {
            name: "HealthSystem".to_owned(),
            priority: SystemPriority::Normal,
            resource_hints: self.resource_requirements(),
            supports_parallel: true,
        }
    }
}

/// Copies a system name.
fn clone_name(name: &String) -> (r: String)
    ensures
        r@ == name@,
{
    name.clone()
}

} // verus!
