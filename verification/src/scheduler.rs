//! The scheduler-state machine: one pure step that applies a scheduler
//! mutation to a snapshot of the scheduler state, guarded by the snapshot's
//! version, and records stage, staleness, rebuild and seed markers in the
//! state's metadata object.
use vstd::prelude::*;

use crate::text::str_eq;

verus! {

/// Versions of the three projections a mutation was prepared against.
#[derive(Debug, Clone, Copy, PartialEq, Eq, Structural)]
pub struct ProjectionVersions {
    pub thread: i64,
    pub scheduler: i64,
    pub live_context_window: i64,
}

/// A plan head with its position (execution first, then test).
#[derive(Debug, Clone, Copy, PartialEq, Eq, Structural)]
pub struct PlanHeadRef {
    pub plan_id: u128,
    pub ordinal: i64,
}

/// The DAG stage a scheduler starts.
#[derive(Debug, Clone, Copy, PartialEq, Eq, Structural)]
pub enum DagStage {
    Execution,
    Test,
}

/// Why a projection is marked stale.
#[derive(Debug, Clone, Copy, PartialEq, Eq, Structural)]
pub enum ProjectionStaleReason {
    RebuildRequired,
    DerivedRecordStale,
    CasConflict,
    Backpressure,
    ManualRepair,
}

/// The selected execution/test plan pair.
#[derive(Debug, Clone, Copy, PartialEq, Eq, Structural)]
pub struct SelectedPlanSet {
    pub execution_plan_id: u128,
    pub test_plan_id: u128,
}

/// The Phase 0 seed of a thread.
#[derive(Debug, Clone, Copy, PartialEq, Eq, Structural)]
pub struct Phase0Bundle {
    pub thread_id: u128,
    pub intent_id: u128,
    pub context_snapshot_id: Option<u128>,
}

/// A freshly materialized projection (its thread and versions).
#[derive(Debug, Clone, Copy, PartialEq, Eq, Structural)]
pub struct MaterializedProjection {
    pub thread_id: u128,
    pub versions: ProjectionVersions,
}

/// One scheduler mutation, each carrying the versions it expects.
#[derive(Debug, Clone, Copy, PartialEq, Eq, Structural)]
pub enum SchedulerMutation {
    MarkTaskActive { expected: ProjectionVersions, task_id: u128, run_id: Option<u128> },
    ClearActiveRun { expected: ProjectionVersions },
    SetCurrentPlanHeads {
        expected: ProjectionVersions,
        execution_plan_id: u128,
        test_plan_id: u128,
    },
    SelectPlanSet { expected: ProjectionVersions, selected: SelectedPlanSet },
    StartStage { expected: ProjectionVersions, stage: DagStage },
    MarkProjectionStale { expected: ProjectionVersions, reason: ProjectionStaleReason },
    ApplyRebuild { expected: ProjectionVersions, materialized: MaterializedProjection },
    SeedThread { expected: ProjectionVersions, bundle: Phase0Bundle },
}

/// The versions a mutation expects.
pub open spec fn expected_of(m: SchedulerMutation) -> ProjectionVersions {
    match m {
        SchedulerMutation::MarkTaskActive { expected, .. } => expected,
        SchedulerMutation::ClearActiveRun { expected } => expected,
        SchedulerMutation::SetCurrentPlanHeads { expected, .. } => expected,
        SchedulerMutation::SelectPlanSet { expected, .. } => expected,
        SchedulerMutation::StartStage { expected, .. } => expected,
        SchedulerMutation::MarkProjectionStale { expected, .. } => expected,
        SchedulerMutation::ApplyRebuild { expected, .. } => expected,
        SchedulerMutation::SeedThread { expected, .. } => expected,
    }
}

impl SchedulerMutation {
    /// The versions this mutation was prepared against.
    pub fn expected_versions(&self) -> (r: ProjectionVersions)
        ensures
            r == expected_of(*self),
    {
        match self {
            SchedulerMutation::MarkTaskActive { expected, .. } => *expected,
            SchedulerMutation::ClearActiveRun { expected } => *expected,
            SchedulerMutation::SetCurrentPlanHeads { expected, .. } => *expected,
            SchedulerMutation::SelectPlanSet { expected, .. } => *expected,
            SchedulerMutation::StartStage { expected, .. } => *expected,
            SchedulerMutation::MarkProjectionStale { expected, .. } => *expected,
            SchedulerMutation::ApplyRebuild { expected, .. } => *expected,
            SchedulerMutation::SeedThread { expected, .. } => *expected,
        }
    }
}

impl SelectedPlanSet {
    /// The plan ids in execution order: the execution plan, then the test plan.
    pub fn ordered_ids(&self) -> (r: Vec<u128>)
        ensures
            r@ == seq![self.execution_plan_id, self.test_plan_id],
    {
        let mut v: Vec<u128> = Vec::new();
        v.push(self.execution_plan_id);
        v.push(self.test_plan_id);
        v
    }
}

// ---------------------------------------------------------------------------
// Metadata
// ---------------------------------------------------------------------------

/// A value stored under a metadata key.
#[derive(Debug, Clone)]
pub enum MetaValue {
    /// A string label (`stage`, `stale_reason`).
    Text(String),
    /// The recorded seed bundle.
    SeedBundle { intent_id: u128, context_snapshot_id: Option<u128> },
    /// The versions recorded by the last rebuild.
    RebuildVersions(ProjectionVersions),
    /// Any other JSON value, kept as its text.
    Json(String),
}

/// The mathematical value of a metadata value.
pub enum MetaView {
    Text(Seq<char>),
    SeedBundle { intent_id: u128, context_snapshot_id: Option<u128> },
    RebuildVersions(ProjectionVersions),
    Json(Seq<char>),
}

impl View for MetaValue {
    type V = MetaView;

    open spec fn view(&self) -> MetaView {
        match self {
            MetaValue::Text(t) => MetaView::Text(t@),
            MetaValue::SeedBundle { intent_id, context_snapshot_id } => MetaView::SeedBundle {
                intent_id: *intent_id,
                context_snapshot_id: *context_snapshot_id,
            },
            MetaValue::RebuildVersions(v) => MetaView::RebuildVersions(*v),
            MetaValue::Json(t) => MetaView::Json(t@),
        }
    }
}

/// Scheduler metadata: a JSON object (its entries) or another JSON value.
#[derive(Debug, Clone)]
pub enum SchedulerMetadata {
    Object(Vec<(String, MetaValue)>),
    Other(String),
}

/// The mathematical value of scheduler metadata.
pub enum MetadataView {
    Object(Seq<(Seq<char>, MetaView)>),
    Other(Seq<char>),
}

/// The views of metadata entries.
pub open spec fn entries_view(v: Seq<(String, MetaValue)>) -> Seq<(Seq<char>, MetaView)> {
    v.map_values(|e: (String, MetaValue)| (e.0@, e.1@))
}

impl View for SchedulerMetadata {
    type V = MetadataView;

    open spec fn view(&self) -> MetadataView {
        match self {
            SchedulerMetadata::Object(v) => MetadataView::Object(entries_view(v@)),
            SchedulerMetadata::Other(t) => MetadataView::Other(t@),
        }
    }
}

/// The value stored under `k` (the last entry with that key).
pub open spec fn entry_of(es: Seq<(Seq<char>, MetaView)>, k: Seq<char>) -> Option<MetaView>
    decreases es.len(),
{
    if es.len() == 0 {
        None
    } else if es.last().0 == k {
        Some(es.last().1)
    } else {
        entry_of(es.drop_last(), k)
    }
}

/// The entries without key `k`.
pub open spec fn without(es: Seq<(Seq<char>, MetaView)>, k: Seq<char>) -> Seq<(Seq<char>, MetaView)>
    decreases es.len(),
{
    if es.len() == 0 {
        es
    } else if es.last().0 == k {
        without(es.drop_last(), k)
    } else {
        without(es.drop_last(), k).push(es.last())
    }
}

/// The entries with `k` set to `v` (`Map::insert`).
pub open spec fn with(es: Seq<(Seq<char>, MetaView)>, k: Seq<char>, v: MetaView) -> Seq<(Seq<char>, MetaView)> {
    without(es, k).push((k, v))
}

/// The label of a stage.
pub open spec fn stage_label(s: DagStage) -> Seq<char> {
    match s {
        DagStage::Execution => "execution"@,
        DagStage::Test => "test"@,
    }
}

/// The label of a staleness reason.
pub open spec fn stale_label(r: ProjectionStaleReason) -> Seq<char> {
    match r {
        ProjectionStaleReason::RebuildRequired => "rebuild_required"@,
        ProjectionStaleReason::DerivedRecordStale => "derived_record_stale"@,
        ProjectionStaleReason::CasConflict => "cas_conflict"@,
        ProjectionStaleReason::Backpressure => "backpressure"@,
        ProjectionStaleReason::ManualRepair => "manual_repair"@,
    }
}

/// Whether a mutation edits the metadata object.
pub open spec fn writes_metadata(m: SchedulerMutation) -> bool {
    ||| m is StartStage
    ||| m is MarkProjectionStale
    ||| m is ApplyRebuild
    ||| m is SeedThread
}

/// The metadata entries after a mutation's edits.
pub open spec fn edit_entries(es: Seq<(Seq<char>, MetaView)>, m: SchedulerMutation) -> Seq<(Seq<char>, MetaView)> {
    match m {
        SchedulerMutation::StartStage { stage, .. } => without(
            with(es, "stage"@, MetaView::Text(stage_label(stage))),
            "stale_reason"@,
        ),
        SchedulerMutation::MarkProjectionStale { reason, .. } => with(
            es,
            "stale_reason"@,
            MetaView::Text(stale_label(reason)),
        ),
        SchedulerMutation::ApplyRebuild { materialized, .. } => with(
            without(es, "stale_reason"@),
            "rebuild_versions"@,
            MetaView::RebuildVersions(materialized.versions),
        ),
        SchedulerMutation::SeedThread { bundle, .. } => without(
            without(
                with(
                    es,
                    "seed_bundle"@,
                    MetaView::SeedBundle {
                        intent_id: bundle.intent_id,
                        context_snapshot_id: bundle.context_snapshot_id,
                    },
                ),
                "stale_reason"@,
            ),
            "stage"@,
        ),
        _ => es,
    }
}

/// The metadata after a mutation: absent metadata starts as an empty
/// object, and a value that is not an object is left as it is.
pub open spec fn metadata_after(md: Option<MetadataView>, m: SchedulerMutation) -> Option<MetadataView> {
    if !writes_metadata(m) {
        md
    } else {
        match md {
            Some(MetadataView::Other(t)) => Some(MetadataView::Other(t)),
            Some(MetadataView::Object(es)) => Some(MetadataView::Object(edit_entries(es, m))),
            None => Some(MetadataView::Object(edit_entries(Seq::empty(), m))),
        }
    }
}

impl SchedulerMetadata {
    /// The value stored under `key`, when the metadata is an object that
    /// has the key.
    pub fn get(&self, key: &str) -> (r: Option<&MetaValue>)
        ensures
            match r {
                Some(v) => meta_entry(Some(self@), key@) == Some(v@),
                None => meta_entry(Some(self@), key@) is None,
            },
    {
        match self {
            SchedulerMetadata::Other(_) => None,
            SchedulerMetadata::Object(es) => {
                let mut i: usize = es.len();
                assert(entries_view(es@).subrange(0, i as int) =~= entries_view(es@));
                while i > 0
                    invariant
                        i <= es.len(),
                        *self == SchedulerMetadata::Object(*es),
                        entry_of(entries_view(es@), key@) == entry_of(
                            entries_view(es@).subrange(0, i as int),
                            key@,
                        ),
                    decreases i,
                {
                    let ghost pre = entries_view(es@).subrange(0, i as int);
                    assert(pre.drop_last() =~= entries_view(es@).subrange(0, i - 1));
                    assert(pre.last() == entries_view(es@)[i - 1]);
                    if str_eq(es[i - 1].0.as_str(), key) {
                        return Some(&es[i - 1].1);
                    }
                    i -= 1;
                }
                None
            },
        }
    }
}

/// Identifiers of a persisted execution/test plan pair and the plan that
/// owns each task.
#[derive(Debug, Clone, PartialEq, Eq)]
pub struct PlanWriteOutcome {
    pub execution_plan_id: String,
    pub test_plan_id: String,
    /// Task id to owning plan id, one entry per task.
    pub plan_id_by_task_id: Vec<(u128, String)>,
}

impl PlanWriteOutcome {
    /// The plan ids in scheduling order: the execution plan, then the test plan.
    pub fn ordered_plan_ids(&self) -> (r: (&str, &str))
        ensures
            r.0@ == self.execution_plan_id@,
            r.1@ == self.test_plan_id@,
    {
        (self.execution_plan_id.as_str(), self.test_plan_id.as_str())
    }
}

// ---------------------------------------------------------------------------
// State and the transition
// ---------------------------------------------------------------------------

/// A snapshot of one thread's scheduler state.
#[derive(Debug, Clone)]
pub struct SchedulerState {
    pub thread_id: u128,
    pub selected_plan_id: Option<u128>,
    pub selected_plan_ids: Vec<PlanHeadRef>,
    pub current_plan_heads: Vec<PlanHeadRef>,
    pub active_task_id: Option<u128>,
    pub active_run_id: Option<u128>,
    pub metadata: Option<SchedulerMetadata>,
    /// Last update, in milliseconds since the Unix epoch.
    pub updated_at: i64,
    pub version: i64,
}

/// The mathematical value of a scheduler snapshot.
pub struct SchedulerStateView {
    pub thread_id: u128,
    pub selected_plan_id: Option<u128>,
    pub selected_plan_ids: Seq<PlanHeadRef>,
    pub current_plan_heads: Seq<PlanHeadRef>,
    pub active_task_id: Option<u128>,
    pub active_run_id: Option<u128>,
    pub metadata: Option<MetadataView>,
    pub updated_at: i64,
    pub version: i64,
}

/// The view of optional metadata.
pub open spec fn metadata_view(md: Option<SchedulerMetadata>) -> Option<MetadataView> {
    match md {
        Some(m) => Some(m@),
        None => None,
    }
}

impl View for SchedulerState {
    type V = SchedulerStateView;

    open spec fn view(&self) -> SchedulerStateView {
        SchedulerStateView {
            thread_id: self.thread_id,
            selected_plan_id: self.selected_plan_id,
            selected_plan_ids: self.selected_plan_ids@,
            current_plan_heads: self.current_plan_heads@,
            active_task_id: self.active_task_id,
            active_run_id: self.active_run_id,
            metadata: metadata_view(self.metadata),
            updated_at: self.updated_at,
            version: self.version,
        }
    }
}

/// Why a mutation could not be applied.
#[derive(Debug, Clone, Copy, PartialEq, Eq, Structural)]
pub enum ApplySchedulerMutationError {
    /// The mutation expected another scheduler version; reload and retry.
    VersionMismatch { expected: i64, actual: i64 },
    /// A seed bundle for another thread; cross-thread seeding is refused.
    SeedThreadMismatch { bundle_thread_id: u128, state_thread_id: u128 },
    /// The wall clock reads before the Unix epoch (or past the instants
    /// chrono represents), so the new state cannot be stamped.
    ClockUnavailable,
}

/// The two ordered heads of a plan pair.
pub open spec fn plan_pair(execution_plan_id: u128, test_plan_id: u128) -> Seq<PlanHeadRef> {
    seq![
        PlanHeadRef { plan_id: execution_plan_id, ordinal: 0 },
        PlanHeadRef { plan_id: test_plan_id, ordinal: 1 },
    ]
}

/// The scheduler state after applying `m` to `s` at time `now` (in
/// milliseconds), or the reason it is refused.
pub open spec fn scheduler_after(s: SchedulerStateView, m: SchedulerMutation, now: i64) -> Result<
    SchedulerStateView,
    ApplySchedulerMutationError,
> {
    if expected_of(m).scheduler != s.version {
        Err(
            ApplySchedulerMutationError::VersionMismatch {
                expected: expected_of(m).scheduler,
                actual: s.version,
            },
        )
    } else if m matches SchedulerMutation::SeedThread { bundle, .. } && bundle.thread_id
        != s.thread_id {
        Err(
            ApplySchedulerMutationError::SeedThreadMismatch {
                bundle_thread_id: m->bundle.thread_id,
                state_thread_id: s.thread_id,
            },
        )
    } else {
        Ok(
            SchedulerStateView {
                thread_id: s.thread_id,
                selected_plan_id: match m {
                    SchedulerMutation::SetCurrentPlanHeads { execution_plan_id, .. } => Some(
                        execution_plan_id,
                    ),
                    SchedulerMutation::SelectPlanSet { selected, .. } => Some(
                        selected.execution_plan_id,
                    ),
                    SchedulerMutation::SeedThread { .. } => None,
                    _ => s.selected_plan_id,
                },
                selected_plan_ids: match m {
                    SchedulerMutation::SelectPlanSet { selected, .. } => plan_pair(
                        selected.execution_plan_id,
                        selected.test_plan_id,
                    ),
                    SchedulerMutation::SeedThread { .. } => Seq::empty(),
                    _ => s.selected_plan_ids,
                },
                current_plan_heads: match m {
                    SchedulerMutation::SetCurrentPlanHeads {
                        execution_plan_id,
                        test_plan_id,
                        ..
                    } => plan_pair(execution_plan_id, test_plan_id),
                    SchedulerMutation::SeedThread { .. } => Seq::empty(),
                    _ => s.current_plan_heads,
                },
                active_task_id: match m {
                    SchedulerMutation::MarkTaskActive { task_id, .. } => Some(task_id),
                    SchedulerMutation::SeedThread { .. } => None,
                    _ => s.active_task_id,
                },
                active_run_id: match m {
                    SchedulerMutation::MarkTaskActive { run_id, .. } => run_id,
                    SchedulerMutation::ClearActiveRun { .. } => None,
                    SchedulerMutation::SeedThread { .. } => None,
                    _ => s.active_run_id,
                },
                metadata: metadata_after(s.metadata, m),
                updated_at: now,
                version: (s.version + 1) as i64,
            },
        )
    }
}

/// The view of an application result.
pub open spec fn result_view(r: Result<SchedulerState, ApplySchedulerMutationError>) -> Result<
    SchedulerStateView,
    ApplySchedulerMutationError,
> {
    match r {
        Ok(s) => Ok(s@),
        Err(e) => Err(e),
    }
}

fn copy_value(v: &MetaValue) -> (r: MetaValue)
    ensures
        r@ == v@,
{
    match v {
        MetaValue::Text(t) => MetaValue::Text(t.clone()),
        MetaValue::SeedBundle { intent_id, context_snapshot_id } => MetaValue::SeedBundle {
            intent_id: *intent_id,
            context_snapshot_id: *context_snapshot_id,
        },
        MetaValue::RebuildVersions(x) => MetaValue::RebuildVersions(*x),
        MetaValue::Json(t) => MetaValue::Json(t.clone()),
    }
}

/// A copy of `es` without the entries keyed `k`.
fn entries_without(es: &Vec<(String, MetaValue)>, k: &str) -> (r: Vec<(String, MetaValue)>)
    ensures
        entries_view(r@) == without(entries_view(es@), k@),
{
    let mut out: Vec<(String, MetaValue)> = Vec::new();
    let mut i: usize = 0;
    while i < es.len()
        invariant
            i <= es.len(),
            entries_view(out@) == without(entries_view(es@).subrange(0, i as int), k@),
        decreases es.len() - i,
    {
        let ghost pre = entries_view(es@).subrange(0, i as int);
        assert(entries_view(es@).subrange(0, i + 1).drop_last() =~= pre);
        let keep = !str_eq(es[i].0.as_str(), k);
        if keep {
            let key = es[i].0.clone();
            let val = copy_value(&es[i].1);
            out.push((key, val));
            assert(entries_view(out@) =~= without(pre, k@).push(entries_view(es@)[i as int]));
        }
        i += 1;
    }
    assert(entries_view(es@).subrange(0, es.len() as int) =~= entries_view(es@));
    out
}

/// A copy of `es` with `k` set to `v`.
fn entries_with(es: &Vec<(String, MetaValue)>, k: &str, v: MetaValue) -> (r: Vec<(String, MetaValue)>)
    ensures
        entries_view(r@) == with(entries_view(es@), k@, v@),
{
    let mut out = entries_without(es, k);
    out.push((String::from_str(k), v));
    assert(entries_view(out@) =~= with(entries_view(es@), k@, v@));
    out
}

fn copy_entries(es: &Vec<(String, MetaValue)>) -> (r: Vec<(String, MetaValue)>)
    ensures
        entries_view(r@) == entries_view(es@),
{
    let mut out: Vec<(String, MetaValue)> = Vec::new();
    let mut i: usize = 0;
    while i < es.len()
        invariant
            i <= es.len(),
            out@.len() == i,
            entries_view(out@) == entries_view(es@).subrange(0, i as int),
        decreases es.len() - i,
    {
        let key = es[i].0.clone();
        let val = copy_value(&es[i].1);
        let ghost before = out@;
        out.push((key, val));
        assert(out@ == before.push((key, val)));
        assert(entries_view(out@)[i as int] == entries_view(es@)[i as int]);
        assert(entries_view(out@) =~= entries_view(es@).subrange(0, i + 1));
        i += 1;
    }
    assert(entries_view(es@).subrange(0, es.len() as int) =~= entries_view(es@));
    out
}

fn copy_metadata(md: &Option<SchedulerMetadata>) -> (r: Option<SchedulerMetadata>)
    ensures
        metadata_view(r) == metadata_view(*md),
{
    match md {
        None => None,
        Some(SchedulerMetadata::Object(es)) => Some(SchedulerMetadata::Object(copy_entries(es))),
        Some(SchedulerMetadata::Other(t)) => Some(SchedulerMetadata::Other(t.clone())),
    }
}

fn copy_heads(v: &Vec<PlanHeadRef>) -> (r: Vec<PlanHeadRef>)
    ensures
        r@ == v@,
{
    let mut out: Vec<PlanHeadRef> = Vec::new();
    let mut i: usize = 0;
    while i < v.len()
        invariant
            i <= v.len(),
            out@ == v@.subrange(0, i as int),
        decreases v.len() - i,
    {
        out.push(v[i]);
        i += 1;
        assert(out@ =~= v@.subrange(0, i as int));
    }
    assert(v@.subrange(0, v.len() as int) =~= v@);
    out
}

fn edit_exec(es: &Vec<(String, MetaValue)>, m: &SchedulerMutation) -> (r: Vec<(String, MetaValue)>)
    requires
        writes_metadata(*m),
    ensures
        entries_view(r@) == edit_entries(entries_view(es@), *m),
{
    proof {
        reveal_strlit("stage");
        reveal_strlit("stale_reason");
        reveal_strlit("rebuild_versions");
        reveal_strlit("seed_bundle");
    }
    match m {
        SchedulerMutation::StartStage { stage, .. } => {
            let label = match stage {
                DagStage::Execution => "execution",
                DagStage::Test => "test",
            };
            let staged = entries_with(es, "stage", MetaValue::Text(String::from_str(label)));
            entries_without(&staged, "stale_reason")
        },
        SchedulerMutation::MarkProjectionStale { reason, .. } => {
            let label = match reason {
                ProjectionStaleReason::RebuildRequired => "rebuild_required",
                ProjectionStaleReason::DerivedRecordStale => "derived_record_stale",
                ProjectionStaleReason::CasConflict => "cas_conflict",
                ProjectionStaleReason::Backpressure => "backpressure",
                ProjectionStaleReason::ManualRepair => "manual_repair",
            };
            entries_with(es, "stale_reason", MetaValue::Text(String::from_str(label)))
        },
        SchedulerMutation::ApplyRebuild { materialized, .. } => {
            let fresh = entries_without(es, "stale_reason");
            entries_with(&fresh, "rebuild_versions", MetaValue::RebuildVersions(materialized.versions))
        },
        SchedulerMutation::SeedThread { bundle, .. } => {
            let seeded = entries_with(
                es,
                "seed_bundle",
                MetaValue::SeedBundle {
                    intent_id: bundle.intent_id,
                    context_snapshot_id: bundle.context_snapshot_id,
                },
            );
            let fresh = entries_without(&seeded, "stale_reason");
            entries_without(&fresh, "stage")
        },
        _ => copy_entries(es),
    }
}

/// Applies `mutation` to `current` at time `now` (milliseconds since the
/// Unix epoch): the step of `apply_scheduler_mutation` with its clock read.
pub fn apply_scheduler_mutation_at(
    current: &SchedulerState,
    mutation: SchedulerMutation,
    now: i64,
) -> (r: Result<SchedulerState, ApplySchedulerMutationError>)
    requires
        expected_of(mutation).scheduler == current.version ==> current.version < i64::MAX,
    ensures
        result_view(r) == scheduler_after(current@, mutation, now),
        r matches Ok(n) ==> changes_only_named_fields(current@, mutation, n@) && heads_set_as_named(
            mutation,
            n@,
        ),
{
    let expected = mutation.expected_versions().scheduler;
    if current.version != expected {
        return Err(
            ApplySchedulerMutationError::VersionMismatch { expected, actual: current.version },
        );
    }
    if let SchedulerMutation::SeedThread { bundle, .. } = mutation {
        if bundle.thread_id != current.thread_id {
            return Err(
                ApplySchedulerMutationError::SeedThreadMismatch {
                    bundle_thread_id: bundle.thread_id,
                    state_thread_id: current.thread_id,
                },
            );
        }
    }
    let mut next = SchedulerState {
        thread_id: current.thread_id,
        selected_plan_id: current.selected_plan_id,
        selected_plan_ids: copy_heads(&current.selected_plan_ids),
        current_plan_heads: copy_heads(&current.current_plan_heads),
        active_task_id: current.active_task_id,
        active_run_id: current.active_run_id,
        metadata: copy_metadata(&current.metadata),
        updated_at: now,
        version: current.version + 1,
    };
    match mutation {
        SchedulerMutation::MarkTaskActive { task_id, run_id, .. } => {
            next.active_task_id = Some(task_id);
            next.active_run_id = run_id;
        },
        SchedulerMutation::ClearActiveRun { .. } => {
            next.active_run_id = None;
        },
        SchedulerMutation::SetCurrentPlanHeads { execution_plan_id, test_plan_id, .. } => {
            let mut heads: Vec<PlanHeadRef> = Vec::new();
            heads.push(PlanHeadRef { plan_id: execution_plan_id, ordinal: 0 });
            heads.push(PlanHeadRef { plan_id: test_plan_id, ordinal: 1 });
            next.current_plan_heads = heads;
            next.selected_plan_id = Some(execution_plan_id);
        },
        SchedulerMutation::SelectPlanSet { selected, .. } => {
            let ordered = selected.ordered_ids();
            let mut heads: Vec<PlanHeadRef> = Vec::new();
            let mut i: usize = 0;
            while i < ordered.len()
                invariant
                    i <= ordered.len(),
                    ordered@ == seq![selected.execution_plan_id, selected.test_plan_id],
                    heads@.len() == i,
                    forall|k: int|
                        0 <= k < i ==> #[trigger] heads@[k] == (PlanHeadRef {
                            plan_id: ordered@[k],
                            ordinal: k as i64,
                        }),
                decreases ordered.len() - i,
            {
                heads.push(PlanHeadRef { plan_id: ordered[i], ordinal: i as i64 });
                i += 1;
            }
            assert(heads@ =~= plan_pair(selected.execution_plan_id, selected.test_plan_id));
            next.selected_plan_ids = heads;
            next.selected_plan_id = Some(selected.execution_plan_id);
        },
        SchedulerMutation::SeedThread { .. } => {
            next.active_task_id = None;
            next.active_run_id = None;
            next.selected_plan_id = None;
            next.selected_plan_ids = Vec::new();
            next.current_plan_heads = Vec::new();
        },
        _ => {},
    }
    let edits_metadata = match mutation {
        SchedulerMutation::StartStage { .. } => true,
        SchedulerMutation::MarkProjectionStale { .. } => true,
        SchedulerMutation::ApplyRebuild { .. } => true,
        SchedulerMutation::SeedThread { .. } => true,
        _ => false,
    };
    if edits_metadata {
        let edited = match &current.metadata {
            Some(SchedulerMetadata::Other(t)) => SchedulerMetadata::Other(t.clone()),
            Some(SchedulerMetadata::Object(es)) => SchedulerMetadata::Object(
                edit_exec(es, &mutation),
            ),
            None => {
                let empty: Vec<(String, MetaValue)> = Vec::new();
                assert(entries_view(empty@) =~= Seq::<(Seq<char>, MetaView)>::empty());
                SchedulerMetadata::Object(edit_exec(&empty, &mutation))
            },
        };
        next.metadata = Some(edited);
    }
    let ghost want = scheduler_after(current@, mutation, now)->Ok_0;
    assert(next@.thread_id == want.thread_id);
    assert(next@.selected_plan_id == want.selected_plan_id);
    assert(next@.selected_plan_ids == want.selected_plan_ids);
    assert(next@.current_plan_heads == want.current_plan_heads);
    assert(next@.active_task_id == want.active_task_id);
    assert(next@.active_run_id == want.active_run_id);
    assert(next@.metadata == want.metadata);
    assert(next@.updated_at == want.updated_at);
    assert(next@.version == want.version);
    Ok(next)
}

/// A reading of the machine's wall clock (`std::time::SystemTime`); the
/// library reads nothing inside it.
#[verifier::external_type_specification]
#[verifier::external_body]
pub struct ExSystemTime(std::time::SystemTime);

/// `SystemTime::now()`: a reading of the wall clock; nothing is promised of
/// its value.
#[verifier::external_body]
fn system_now() -> (r: std::time::SystemTime) {
    std::time::SystemTime::now()
}

/// `SystemTime::duration_since(UNIX_EPOCH)` as whole seconds and the
/// nanoseconds past them (`Duration::as_secs`, `Duration::subsec_nanos`),
/// none when the reading lies before the epoch. Of the values only that the
/// nanoseconds stay under one second, as `subsec_nanos` documents, is
/// stated.
#[verifier::external_body]
fn since_unix_epoch(t: &std::time::SystemTime) -> (r: Option<(u64, u32)>)
    ensures
        r matches Some((_, n)) ==> n < 1_000_000_000,
{
    match t.duration_since(std::time::UNIX_EPOCH) {
        Ok(d) => Some((d.as_secs(), d.subsec_nanos())),
        Err(_) => None,
    }
}

/// `chrono::DateTime::from_timestamp(secs, nsecs)` read back with
/// `DateTime::timestamp_millis`: none where chrono cannot represent the
/// instant. For nanoseconds under one second the milliseconds are
/// `secs * 1000 + nsecs / 1_000_000`: `from_timestamp` round-trips
/// `timestamp()` and `timestamp_subsec_nanos()`, and `timestamp_millis` adds
/// the whole milliseconds of the second to `timestamp() * 1000`. chrono
/// represents every date from year -262,143 to 262,142, so every second
/// within 8·10¹² of the epoch (about 253,500 years) is represented; where
/// chrono's range ends beyond that is not stated.
#[verifier::external_body]
fn utc_millis_of(secs: i64, nsecs: u32) -> (r: Option<i64>)
    ensures
        nsecs < 1_000_000_000 ==> (r matches Some(m) ==> m == secs * 1000 + nsecs / 1_000_000),
        nsecs < 1_000_000_000 && -CHRONO_SAFE_SECS <= secs <= CHRONO_SAFE_SECS ==> r == Some(
            (secs * 1000 + nsecs / 1_000_000) as i64,
        ),
{
    match chrono::DateTime::from_timestamp(secs, nsecs) {
        Some(t) => Some(t.timestamp_millis()),
        None => None,
    }
}

/// Seconds from the epoch within which chrono represents every instant.
pub const CHRONO_SAFE_SECS: i64 = 8_000_000_000_000;

/// The milliseconds of a clock reading (whole seconds and nanoseconds since
/// the epoch) where they are fixed: none for no reading (a clock before the
/// epoch), the milliseconds for a reading within `CHRONO_SAFE_SECS`; a
/// reading beyond it is left to chrono's range.
pub open spec fn reading_millis(reading: Option<(u64, u32)>) -> Option<Option<i64>> {
    match reading {
        None => Some(None),
        Some((s, n)) => if s <= CHRONO_SAFE_SECS && n < 1_000_000_000 {
            Some(Some((s * 1000 + n / 1_000_000) as i64))
        } else {
            None
        },
    }
}

/// The milliseconds since the epoch of a clock reading, as `chrono::Utc::now`
/// turns a reading into a `DateTime` (seconds as `i64`, then chrono), but
/// without its panics: none for no reading, or where chrono cannot
/// represent the instant.
pub fn millis_of_reading(reading: Option<(u64, u32)>) -> (r: Option<i64>)
    ensures
        reading_millis(reading) matches Some(fixed) ==> r == fixed,
        reading is None ==> r is None,
        r matches Some(m) ==> (reading matches Some((s, n)) && (n < 1_000_000_000 ==> m == s * 1000
            + n / 1_000_000)),
{
    match reading {
        Some((secs, nanos)) => {
            if secs <= 9_223_372_036_854_775_807u64 {
                utc_millis_of(secs as i64, nanos)
            } else {
                None
            }
        },
        None => None,
    }
}

/// Reads the wall clock: whole seconds and nanoseconds since the Unix
/// epoch, none when it reads before the epoch.
fn clock_reading() -> (r: Option<(u64, u32)>)
    ensures
        r matches Some((_, n)) ==> n < 1_000_000_000,
{
    let t = system_now();
    since_unix_epoch(&t)
}

/// Applies `mutation` to `current` with the clock reading `reading` (see
/// `clock_reading`): a mutation at another version is refused as in
/// `scheduler_after`; otherwise the result is stamped with the reading's
/// milliseconds, and `ClockUnavailable` answers a reading that gives none.
pub fn apply_scheduler_mutation_with_reading(
    current: &SchedulerState,
    mutation: SchedulerMutation,
    reading: Option<(u64, u32)>,
) -> (r: Result<SchedulerState, ApplySchedulerMutationError>)
    requires
        expected_of(mutation).scheduler == current.version ==> current.version < i64::MAX,
    ensures
        expected_of(mutation).scheduler != current.version ==> result_view(r) == scheduler_after(
            current@,
            mutation,
            0,
        ),
        expected_of(mutation).scheduler == current.version ==> match reading_millis(reading) {
            Some(None) => r == Err::<SchedulerState, ApplySchedulerMutationError>(
                ApplySchedulerMutationError::ClockUnavailable,
            ),
            Some(Some(now)) => result_view(r) == scheduler_after(current@, mutation, now),
            None => r == Err::<SchedulerState, ApplySchedulerMutationError>(
                ApplySchedulerMutationError::ClockUnavailable,
            ) || exists|now: i64| result_view(r) == scheduler_after(current@, mutation, now),
        },
{
    let expected = mutation.expected_versions().scheduler;
    if current.version != expected {
        return apply_scheduler_mutation_at(current, mutation, 0);
    }
    match millis_of_reading(reading) {
        Some(now) => apply_scheduler_mutation_at(current, mutation, now),
        None => Err(ApplySchedulerMutationError::ClockUnavailable),
    }
}

/// Applies `mutation` to the snapshot `current` and stamps the result with
/// the current time: the next state, or why the mutation is refused (a
/// version other than the snapshot's, or a seed for another thread). The
/// clock is read only for a mutation at the snapshot's version and handed
/// to `apply_scheduler_mutation_with_reading`, whose contract this one
/// carries for some reading: `ClockUnavailable` answers only a clock set
/// before the Unix epoch, or past the instants chrono represents.
pub fn apply_scheduler_mutation(current: &SchedulerState, mutation: SchedulerMutation) -> (r: Result<
    SchedulerState,
    ApplySchedulerMutationError,
>)
    requires
        expected_of(mutation).scheduler == current.version ==> current.version < i64::MAX,
    ensures
        expected_of(mutation).scheduler != current.version ==> result_view(r) == scheduler_after(
            current@,
            mutation,
            0,
        ),
        expected_of(mutation).scheduler == current.version ==> exists|reading: Option<(u64, u32)>|
            (reading matches Some((_, n)) ==> n < 1_000_000_000) && match reading_millis(reading) {
                Some(None) => r == Err::<SchedulerState, ApplySchedulerMutationError>(
                    ApplySchedulerMutationError::ClockUnavailable,
                ),
                Some(Some(now)) => result_view(r) == scheduler_after(current@, mutation, now),
                None => r == Err::<SchedulerState, ApplySchedulerMutationError>(
                    ApplySchedulerMutationError::ClockUnavailable,
                ) || exists|now: i64| result_view(r) == scheduler_after(current@, mutation, now),
            },
{
    let expected = mutation.expected_versions().scheduler;
    if current.version != expected {
        return apply_scheduler_mutation_at(current, mutation, 0);
    }
    let reading = clock_reading();
    apply_scheduler_mutation_with_reading(current, mutation, reading)
}


// ---------------------------------------------------------------------------
// Laws
// ---------------------------------------------------------------------------

/// The value under `k` in optional metadata (none unless it is an object).
pub open spec fn meta_entry(md: Option<MetadataView>, k: Seq<char>) -> Option<MetaView> {
    match md {
        Some(MetadataView::Object(es)) => entry_of(es, k),
        _ => None,
    }
}

/// Removing a key leaves every other key's value.
pub proof fn lemma_entry_of_without(es: Seq<(Seq<char>, MetaView)>, k: Seq<char>, j: Seq<char>)
    ensures
        entry_of(without(es, k), j) == (if j == k {
            None
        } else {
            entry_of(es, j)
        }),
    decreases es.len(),
{
    if es.len() > 0 {
        lemma_entry_of_without(es.drop_last(), k, j);
        if es.last().0 != k {
            assert(without(es, k).drop_last() =~= without(es.drop_last(), k));
        }
    }
}

/// Setting a key changes that key's value only.
pub proof fn lemma_entry_of_with(
    es: Seq<(Seq<char>, MetaView)>,
    k: Seq<char>,
    v: MetaView,
    j: Seq<char>,
)
    ensures
        entry_of(with(es, k, v), j) == (if j == k {
            Some(v)
        } else {
            entry_of(es, j)
        }),
{
    lemma_entry_of_without(es, k, j);
    assert(with(es, k, v).drop_last() =~= without(es, k));
}

/// What an applied mutation `m` may change from `s` to `n`: each mutation
/// changes only the fields it names. The thread stays, the version moves one
/// on (below `i64::MAX`, where the original overflows); the selected plan set changes only by `SelectPlanSet` or
/// `SeedThread`; the current plan heads only by `SetCurrentPlanHeads` or
/// `SeedThread`; the selected plan only by those three; the active task only
/// by `MarkTaskActive` or `SeedThread`; the active run also by
/// `ClearActiveRun`; the metadata only by `StartStage`,
/// `MarkProjectionStale`, `ApplyRebuild` or `SeedThread`.
pub open spec fn changes_only_named_fields(s: SchedulerStateView, m: SchedulerMutation, n: SchedulerStateView) -> bool {
    let seed = m is SeedThread;
    &&& n.thread_id == s.thread_id
    &&& s.version < i64::MAX ==> n.version == s.version + 1
    &&& !(m is SelectPlanSet || seed) ==> n.selected_plan_ids == s.selected_plan_ids
    &&& !(m is SetCurrentPlanHeads || seed) ==> n.current_plan_heads == s.current_plan_heads
    &&& !(m is SetCurrentPlanHeads || m is SelectPlanSet || seed) ==> n.selected_plan_id
        == s.selected_plan_id
    &&& !(m is MarkTaskActive || seed) ==> n.active_task_id == s.active_task_id
    &&& !(m is MarkTaskActive || m is ClearActiveRun || seed) ==> n.active_run_id == s.active_run_id
    &&& !(m is StartStage || m is MarkProjectionStale || m is ApplyRebuild || seed) ==> n.metadata
        == s.metadata
}

/// Setting the current plan heads records the execution and test plans as
/// heads 0 and 1 and selects the execution plan.
pub open spec fn heads_set_as_named(m: SchedulerMutation, n: SchedulerStateView) -> bool {
    m matches SchedulerMutation::SetCurrentPlanHeads { execution_plan_id, test_plan_id, .. } ==> {
        &&& n.current_plan_heads == seq![
            PlanHeadRef { plan_id: execution_plan_id, ordinal: 0 },
            PlanHeadRef { plan_id: test_plan_id, ordinal: 1 },
        ]
        &&& n.selected_plan_id == Some(execution_plan_id)
    }
}

/// Each mutation changes only the fields it names (see
/// `changes_only_named_fields`); in particular a `SetCurrentPlanHeads`
/// keeps the plan set an earlier `SelectPlanSet` selected, and sets only the
/// heads and the selected plan.
pub proof fn law_mutation_changes_only_named_fields(s: SchedulerStateView, m: SchedulerMutation, now: i64)
    ensures
        scheduler_after(s, m, now) matches Ok(n) ==> changes_only_named_fields(s, m, n)
            && heads_set_as_named(m, n),
{
}

/// A mutation that was applied cannot be applied again to its result: the
/// result's version has moved one past the version the mutation expects.
pub proof fn law_applied_mutation_cannot_replay(
    s: SchedulerStateView,
    m: SchedulerMutation,
    now: i64,
    later: i64,
)
    requires
        s.version < i64::MAX,
        scheduler_after(s, m, now) is Ok,
    ensures
        scheduler_after(s, m, now)->Ok_0.version == s.version + 1,
        scheduler_after(s, m, now)->Ok_0.thread_id == s.thread_id,
        scheduler_after(scheduler_after(s, m, now)->Ok_0, m, later) == Err::<
            SchedulerStateView,
            ApplySchedulerMutationError,
        >(
            ApplySchedulerMutationError::VersionMismatch {
                expected: s.version,
                actual: (s.version + 1) as i64,
            },
        ),
{
}

/// Starting a stage records its label under `stage`, removes the staleness
/// marker, and keeps every other key of an object (or absent) metadata.
pub proof fn law_start_stage_records_stage(
    s: SchedulerStateView,
    expected: ProjectionVersions,
    stage: DagStage,
    now: i64,
    k: Seq<char>,
)
    requires
        expected.scheduler == s.version,
        s.version < i64::MAX,
        !(s.metadata matches Some(MetadataView::Other(_))),
    ensures
        ({
            let next = scheduler_after(s, SchedulerMutation::StartStage { expected, stage }, now)->Ok_0;
            &&& meta_entry(next.metadata, "stage"@) == Some(MetaView::Text(stage_label(stage)))
            &&& meta_entry(next.metadata, "stale_reason"@) is None
            &&& (k != "stage"@ && k != "stale_reason"@) ==> meta_entry(next.metadata, k)
                == meta_entry(s.metadata, k)
        }),
{
    let es = match s.metadata {
        Some(MetadataView::Object(es)) => es,
        _ => Seq::empty(),
    };
    let staged = with(es, "stage"@, MetaView::Text(stage_label(stage)));
    assert("stage"@ != "stale_reason"@) by {
        reveal_strlit("stage");
        reveal_strlit("stale_reason");
        assert("stage"@.len() == 5 && "stale_reason"@.len() == 12);
    }
    lemma_entry_of_without(staged, "stale_reason"@, "stage"@);
    lemma_entry_of_without(staged, "stale_reason"@, "stale_reason"@);
    lemma_entry_of_without(staged, "stale_reason"@, k);
    lemma_entry_of_with(es, "stage"@, MetaView::Text(stage_label(stage)), "stage"@);
    lemma_entry_of_with(es, "stage"@, MetaView::Text(stage_label(stage)), k);
}

/// Marking a projection stale and then applying a rebuild leaves no
/// staleness marker and records the rebuilt versions.
pub proof fn law_rebuild_clears_staleness(
    s: SchedulerStateView,
    first: ProjectionVersions,
    reason: ProjectionStaleReason,
    second: ProjectionVersions,
    materialized: MaterializedProjection,
    now: i64,
    later: i64,
)
    requires
        first.scheduler == s.version,
        second.scheduler == s.version + 1,
        s.version + 1 < i64::MAX,
        !(s.metadata matches Some(MetadataView::Other(_))),
    ensures
        ({
            let stale = scheduler_after(
                s,
                SchedulerMutation::MarkProjectionStale { expected: first, reason },
                now,
            )->Ok_0;
            let rebuilt = scheduler_after(
                stale,
                SchedulerMutation::ApplyRebuild { expected: second, materialized },
                later,
            );
            &&& meta_entry(stale.metadata, "stale_reason"@) == Some(MetaView::Text(stale_label(reason)))
            &&& rebuilt is Ok
            &&& meta_entry(rebuilt->Ok_0.metadata, "stale_reason"@) is None
            &&& meta_entry(rebuilt->Ok_0.metadata, "rebuild_versions"@) == Some(
                MetaView::RebuildVersions(materialized.versions),
            )
        }),
{
    let es = match s.metadata {
        Some(MetadataView::Object(es)) => es,
        _ => Seq::empty(),
    };
    let label = MetaView::Text(stale_label(reason));
    lemma_entry_of_with(es, "stale_reason"@, label, "stale_reason"@);
    let marked = with(es, "stale_reason"@, label);
    let cleared = without(marked, "stale_reason"@);
    assert("rebuild_versions"@ != "stale_reason"@) by {
        reveal_strlit("rebuild_versions");
        reveal_strlit("stale_reason");
        assert("rebuild_versions"@.len() == 16 && "stale_reason"@.len() == 12);
    }
    lemma_entry_of_without(marked, "stale_reason"@, "stale_reason"@);
    lemma_entry_of_with(
        cleared,
        "rebuild_versions"@,
        MetaView::RebuildVersions(materialized.versions),
        "stale_reason"@,
    );
    lemma_entry_of_with(
        cleared,
        "rebuild_versions"@,
        MetaView::RebuildVersions(materialized.versions),
        "rebuild_versions"@,
    );
}

/// Seeding a thread clears its active task, run and plan selection, records
/// the seed bundle, removes the stage and staleness markers, and keeps every
/// other metadata key.
pub proof fn law_seed_resets_scheduling(
    s: SchedulerStateView,
    expected: ProjectionVersions,
    bundle: Phase0Bundle,
    now: i64,
    k: Seq<char>,
)
    requires
        expected.scheduler == s.version,
        bundle.thread_id == s.thread_id,
        s.version < i64::MAX,
        !(s.metadata matches Some(MetadataView::Other(_))),
    ensures
        ({
            let next = scheduler_after(s, SchedulerMutation::SeedThread { expected, bundle }, now)->Ok_0;
            &&& next.active_task_id is None
            &&& next.active_run_id is None
            &&& next.selected_plan_id is None
            &&& next.selected_plan_ids.len() == 0
            &&& next.current_plan_heads.len() == 0
            &&& meta_entry(next.metadata, "seed_bundle"@) == Some(
                MetaView::SeedBundle {
                    intent_id: bundle.intent_id,
                    context_snapshot_id: bundle.context_snapshot_id,
                },
            )
            &&& meta_entry(next.metadata, "stale_reason"@) is None
            &&& meta_entry(next.metadata, "stage"@) is None
            &&& (k != "seed_bundle"@ && k != "stale_reason"@ && k != "stage"@) ==> meta_entry(
                next.metadata,
                k,
            ) == meta_entry(s.metadata, k)
        }),
{
    let es = match s.metadata {
        Some(MetadataView::Object(es)) => es,
        _ => Seq::empty(),
    };
    let seed = MetaView::SeedBundle {
        intent_id: bundle.intent_id,
        context_snapshot_id: bundle.context_snapshot_id,
    };
    let seeded = with(es, "seed_bundle"@, seed);
    let fresh = without(seeded, "stale_reason"@);
    assert("seed_bundle"@ != "stale_reason"@ && "seed_bundle"@ != "stage"@
        && "stage"@ != "stale_reason"@) by {
        reveal_strlit("seed_bundle");
        reveal_strlit("stale_reason");
        reveal_strlit("stage");
        assert("seed_bundle"@.len() == 11 && "stale_reason"@.len() == 12 && "stage"@.len() == 5);
    }
    lemma_entry_of_with(es, "seed_bundle"@, seed, "seed_bundle"@);
    lemma_entry_of_with(es, "seed_bundle"@, seed, k);
    lemma_entry_of_without(seeded, "stale_reason"@, "seed_bundle"@);
    lemma_entry_of_without(seeded, "stale_reason"@, "stale_reason"@);
    lemma_entry_of_without(seeded, "stale_reason"@, k);
    lemma_entry_of_with(es, "seed_bundle"@, seed, "stage"@);
    lemma_entry_of_without(seeded, "stale_reason"@, "stage"@);
    lemma_entry_of_without(fresh, "stage"@, "seed_bundle"@);
    lemma_entry_of_without(fresh, "stage"@, "stale_reason"@);
    lemma_entry_of_without(fresh, "stage"@, "stage"@);
    lemma_entry_of_without(fresh, "stage"@, k);
}

/// Clearing the active run after marking a task active keeps the task as
/// the scheduler's focus and leaves no run.
pub proof fn law_task_survives_run_clear(
    s: SchedulerStateView,
    first: ProjectionVersions,
    task_id: u128,
    run_id: Option<u128>,
    second: ProjectionVersions,
    now: i64,
    later: i64,
)
    requires
        first.scheduler == s.version,
        second.scheduler == s.version + 1,
        s.version + 1 < i64::MAX,
    ensures
        ({
            let active = scheduler_after(
                s,
                SchedulerMutation::MarkTaskActive { expected: first, task_id, run_id },
                now,
            )->Ok_0;
            let cleared = scheduler_after(
                active,
                SchedulerMutation::ClearActiveRun { expected: second },
                later,
            );
            &&& active.active_run_id == run_id
            &&& cleared is Ok
            &&& cleared->Ok_0.active_task_id == Some(task_id)
            &&& cleared->Ok_0.active_run_id is None
            &&& cleared->Ok_0.version == s.version + 2
        }),
{
}

} // verus!
