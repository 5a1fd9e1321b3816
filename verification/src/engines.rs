//! Scaling actions, fleet plans and the engine registry.
use vstd::prelude::*;
use vstd::string::*;

use crate::backends::BackendClientError;
use crate::text::same;
use crate::util::Path;

verus! {

/// Why an engine could not be loaded.
#[derive(Debug)]
pub enum EngineError {
    /// The engine's configuration is unusable; the rendered reason.
    Engine(String),
    /// No engine of that name is registered.
    NoSuchEngine(String),
}

impl EngineError {
    /// The message shown for this error.
    pub open spec fn message(&self) -> Seq<char> {
        match self {
            EngineError::Engine(why) => why@,
            EngineError::NoSuchEngine(name) => "no engine: "@ + name@,
        }
    }

    /// Render the error.
    pub fn to_string(&self) -> (r: String)
        ensures
            r@ == self.message(),
    {
        match self {
            EngineError::Engine(why) => why.clone(),
            EngineError::NoSuchEngine(name) => "no engine: ".to_owned().concat(name.as_str()),
        }
    }
}

/// Scaling operation selected by an engine.
#[derive(Debug, Clone, Copy, PartialEq, Eq, Structural)]
pub enum ScaleAction {
    /// Keep the current worker count.
    Hold,
    /// Grow to the carried worker count.
    Up(u32),
    /// Shrink to the carried worker count.
    Down(u32),
    /// Restore the carried worker count after failed validation.
    Revert(u32),
}

impl Default for ScaleAction {
    fn default() -> (r: Self)
        ensures
            r == ScaleAction::Hold,
    {
        ScaleAction::Hold
    }
}

impl ScaleAction {
    /// The worker count that the action asks for.
    pub open spec fn wanted(self) -> Option<u32> {
        match self {
            ScaleAction::Hold => None,
            ScaleAction::Up(target) => Some(target),
            ScaleAction::Down(target) => Some(target),
            ScaleAction::Revert(target) => Some(target),
        }
    }

    /// The name of the action in log lines.
    pub open spec fn label(self) -> Seq<char> {
        match self {
            ScaleAction::Hold => "none"@,
            ScaleAction::Up(_) => "up"@,
            ScaleAction::Down(_) => "down"@,
            ScaleAction::Revert(_) => "revert"@,
        }
    }

    /// Return the requested worker count, or `None` for a hold.
    pub fn target(self) -> (r: Option<u32>)
        ensures
            r == self.wanted(),
    {
        match self {
            Self::Hold => None,
            Self::Up(target) | Self::Down(target) | Self::Revert(target) => Some(target),
        }
    }

    /// Render the action.
    pub fn to_string(&self) -> (r: String)
        ensures
            r@ == self.label(),
    {
        let s = match self {
            Self::Hold => "none",
            Self::Up(_) => "up",
            Self::Down(_) => "down",
            Self::Revert(_) => "revert",
        };
        s.to_owned()
    }
}

/// One VM's entry in a fleet-wide plan.
#[derive(Debug, PartialEq, Eq)]
pub struct InstanceDecision {
    /// Stable VM identifier.
    pub instance_id: String,
    /// Verdict for this VM.
    pub decision: ScaleAction,
}

impl InstanceDecision {
    /// Construct one plan entry.
    pub fn new(instance_id: impl Into<String>, decision: ScaleAction) -> (r: Self)
        ensures
            call_ensures(Into::into, (instance_id,), r.instance_id),
            r.decision == decision,
    {
        Self { instance_id: instance_id.into(), decision }
    }
}

impl Clone for InstanceDecision {
    fn clone(&self) -> (r: Self)
        ensures
            r == *self,
    {
        InstanceDecision { instance_id: self.instance_id.clone(), decision: self.decision }
    }
}

/// Controller guard that rejected an otherwise valid scale action.
#[derive(Debug, Clone, Copy, PartialEq, Eq, Structural)]
pub enum BlockedReason {
    /// A process-local manual scaling command owns the pool for now.
    ManualOverride,
    /// Backend policy classified the initial pool as operator-managed.
    UnmanagedVm,
    /// The requested pool would be below the configured minimum.
    TargetBelowMinimum,
    /// The requested pool would exceed the configured maximum.
    TargetExceedsMaximum,
    /// The requested pool would exceed the guest's vCPU count.
    TargetExceedsVcpuCount,
    /// Host CPU usage leaves no configured headroom for ordinary scale-up.
    HostCpuCeiling,
    /// A previous ordinary scale action is still cooling down.
    Cooldown,
}

impl BlockedReason {
    /// The message shown for this reason.
    pub open spec fn message(self) -> Seq<char> {
        match self {
            BlockedReason::ManualOverride => "manual override is sticky"@,
            BlockedReason::UnmanagedVm => "VM is not managed by the controller"@,
            BlockedReason::TargetBelowMinimum => "target is below controller minimum"@,
            BlockedReason::TargetExceedsMaximum => "target exceeds controller maximum"@,
            BlockedReason::TargetExceedsVcpuCount => "target exceeds vCPU count"@,
            BlockedReason::HostCpuCeiling => "host CPU is at or above scale-up ceiling"@,
            BlockedReason::Cooldown => "VM is in post-action cooldown"@,
        }
    }

    /// Render the reason.
    pub fn to_string(&self) -> (r: String)
        ensures
            r@ == self.message(),
    {
        let s = match self {
            Self::ManualOverride => "manual override is sticky",
            Self::UnmanagedVm => "VM is not managed by the controller",
            Self::TargetBelowMinimum => "target is below controller minimum",
            Self::TargetExceedsMaximum => "target exceeds controller maximum",
            Self::TargetExceedsVcpuCount => "target exceeds vCPU count",
            Self::HostCpuCeiling => "host CPU is at or above scale-up ceiling",
            Self::Cooldown => "VM is in post-action cooldown",
        };
        s.to_owned()
    }
}

/// Result reported to an engine after actuation.
#[derive(Debug)]
pub enum AppliedOutcome {
    /// The backend accepted the action.
    Success {
        /// Applied action and target.
        action: ScaleAction,
        /// Count before actuation.
        prev_thread_count: u32,
        /// Cumulative backend I/O ops before actuation.
        prev_io_count_total: u64,
    },
    /// Actuation was intentionally skipped.
    DryRun {
        /// Proposed action and target.
        action: ScaleAction,
        /// Count before the proposal.
        prev_thread_count: u32,
        /// Cumulative backend I/O ops before the proposal.
        prev_io_count_total: u64,
    },
    /// A controller guard deliberately prevented backend actuation.
    Blocked {
        /// Proposed action and target.
        action: ScaleAction,
        /// Controller policy that prevented the operation.
        reason: BlockedReason,
    },
    /// The controller attempted actuation, but the backend returned an error.
    Failed {
        /// Rejected action and target.
        action: ScaleAction,
        /// Error returned by the backend.
        error: BackendClientError,
    },
}

// ---------------------------------------------------------------------------
// Fleet evaluation
// ---------------------------------------------------------------------------
/// What fleet evaluation reads of one VM.
pub struct FleetMember {
    /// Stable VM identifier.
    pub id: String,
    /// Whether a manual override suppresses automatic scaling.
    pub manual_scaling_sticky: bool,
    /// Whether ownership policy permits automatic scaling.
    pub scaling_allowed: bool,
}

/// Whether the engine is asked about a VM.
pub open spec fn is_eligible(member: FleetMember) -> bool {
    !member.manual_scaling_sticky && member.scaling_allowed
}

/// The positions of the eligible VMs, in fleet order.
pub open spec fn eligible(fleet: Seq<FleetMember>) -> Seq<int>
    decreases fleet.len(),
{
    if fleet.len() == 0 {
        seq![]
    } else if is_eligible(fleet.last()) {
        eligible(fleet.drop_last()).push(fleet.len() - 1)
    } else {
        eligible(fleet.drop_last())
    }
}

/// The VMs to evaluate this tick, as positions in fleet order.
pub fn eligible_members(fleet: &Vec<FleetMember>) -> (r: Vec<usize>)
    ensures
        r@.len() == eligible(fleet@).len(),
        forall|k: int| 0 <= k < r@.len() ==> #[trigger] r@[k] == eligible(fleet@)[k],
        forall|k: int| 0 <= k < r@.len() ==> (#[trigger] r@[k]) < fleet@.len(),
{
    let mut out: Vec<usize> = Vec::new();
    let mut i: usize = 0;
    while i < fleet.len()
        invariant
            i <= fleet@.len(),
            out@.len() == eligible(fleet@.take(i as int)).len(),
            forall|k: int|
                0 <= k < out@.len() ==> #[trigger] out@[k] == eligible(fleet@.take(i as int))[k],
            forall|k: int| 0 <= k < out@.len() ==> (#[trigger] out@[k]) < i,
        decreases fleet@.len() - i,
    {
        assert(fleet@.take(i + 1).drop_last() == fleet@.take(i as int));
        assert(fleet@.take(i + 1).last() == fleet@[i as int]);
        if !fleet[i].manual_scaling_sticky && fleet[i].scaling_allowed {
            out.push(i);
        }
        i += 1;
    }
    assert(fleet@.take(fleet@.len() as int) == fleet@);
    out
}

/// `plan` pairs the k-th eligible VM with the k-th verdict.
pub open spec fn is_plan(
    fleet: Seq<FleetMember>,
    verdicts: Seq<ScaleAction>,
    plan: Seq<InstanceDecision>,
) -> bool {
    &&& plan.len() == eligible(fleet).len()
    &&& forall|k: int|
        0 <= k < plan.len() ==> {
            &&& (#[trigger] plan[k]).instance_id@ == fleet[eligible(fleet)[k]].id@
            &&& plan[k].decision == verdicts[k]
        }
}

/// Collect one coherent plan from the verdicts on the eligible VMs.
///
/// `verdicts` holds the engine's answer for each position that
/// [`eligible_members`] returned.
pub fn evaluate_fleet(fleet: &Vec<FleetMember>, verdicts: &Vec<ScaleAction>) -> (plan: Vec<
    InstanceDecision,
>)
    requires
        verdicts@.len() == eligible(fleet@).len(),
    ensures
        is_plan(fleet@, verdicts@, plan@),
{
    let positions = eligible_members(fleet);
    let mut plan: Vec<InstanceDecision> = Vec::new();
    let mut k: usize = 0;
    while k < positions.len()
        invariant
            k <= positions@.len(),
            plan@.len() == k,
            positions@.len() == eligible(fleet@).len(),
            verdicts@.len() == eligible(fleet@).len(),
            forall|j: int|
                0 <= j < positions@.len() ==> #[trigger] positions@[j] == eligible(fleet@)[j],
            forall|j: int|
                0 <= j < positions@.len() ==> (#[trigger] positions@[j]) < fleet@.len(),
            forall|j: int|
                0 <= j < k ==> {
                    &&& (#[trigger] plan@[j]).instance_id@ == fleet@[eligible(fleet@)[j]].id@
                    &&& plan@[j].decision == verdicts@[j]
                },
        decreases positions@.len() - k,
    {
        let at: usize = positions[k];
        let entry = InstanceDecision::new(fleet[at].id.as_str(), verdicts[k]);
        plan.push(entry);
        k += 1;
    }
    plan
}

/// The eligible positions are exactly those of the eligible VMs, in order.
pub proof fn eligible_is_exact(fleet: Seq<FleetMember>)
    ensures
        forall|k: int|
            0 <= k < eligible(fleet).len() ==> 0 <= #[trigger] eligible(fleet)[k] < fleet.len()
                && is_eligible(fleet[eligible(fleet)[k]]),
        forall|k: int, l: int|
            0 <= k < l < eligible(fleet).len() ==> #[trigger] eligible(fleet)[k]
                < #[trigger] eligible(fleet)[l],
        forall|i: int|
            0 <= i < fleet.len() && is_eligible(#[trigger] fleet[i]) ==> eligible(fleet).contains(i),
    decreases fleet.len(),
{
    if fleet.len() > 0 {
        let front = fleet.drop_last();
        eligible_is_exact(front);
        assert forall|k: int| 0 <= k < eligible(fleet).len() implies 0 <= #[trigger] eligible(
            fleet,
        )[k] < fleet.len() && is_eligible(fleet[eligible(fleet)[k]]) by {
            if k < eligible(front).len() {
                assert(eligible(fleet)[k] == eligible(front)[k]);
                assert(front[eligible(front)[k]] == fleet[eligible(front)[k]]);
            }
        }
        assert forall|k: int, l: int|
            0 <= k < l < eligible(fleet).len() implies #[trigger] eligible(fleet)[k]
            < #[trigger] eligible(fleet)[l] by {
            assert(eligible(fleet)[k] == eligible(front)[k]);
            if l < eligible(front).len() {
                assert(eligible(fleet)[l] == eligible(front)[l]);
            }
        }
        assert forall|i: int|
            0 <= i < fleet.len() && is_eligible(#[trigger] fleet[i]) implies eligible(
            fleet,
        ).contains(i) by {
            if i < front.len() {
                assert(front[i] == fleet[i]);
                assert(eligible(front).contains(i));
                let k = choose|k: int| 0 <= k < eligible(front).len() && eligible(front)[k] == i;
                assert(eligible(fleet)[k] == i);
            } else {
                assert(eligible(fleet)[eligible(fleet).len() - 1] == i);
            }
        }
    }
}

/// A plan never names a VM that is under manual override or unmanaged, unless
/// an eligible VM carries the same identifier.
pub proof fn plans_respect_overrides(
    fleet: Seq<FleetMember>,
    verdicts: Seq<ScaleAction>,
    plan: Seq<InstanceDecision>,
    k: int,
)
    requires
        is_plan(fleet, verdicts, plan),
        0 <= k < plan.len(),
    ensures
        exists|i: int|
            0 <= i < fleet.len() && is_eligible(#[trigger] fleet[i]) && fleet[i].id@
                == plan[k].instance_id@,
{
    eligible_is_exact(fleet);
    let i = eligible(fleet)[k];
    assert(is_eligible(fleet[i]));
    assert(fleet[i].id@ == plan[k].instance_id@);
}

// ---------------------------------------------------------------------------
// Registry
// ---------------------------------------------------------------------------
/// One engine factory.
pub struct EngineRegistration<F> {
    /// Stable name matched against the configured engine.
    pub name: &'static str,
    /// Build the engine from the engine configuration directory.
    pub build: F,
}

/// Position `i` holds the first registration called `name`.
pub open spec fn first_named<F>(
    registrations: Seq<EngineRegistration<F>>,
    name: Seq<char>,
    i: int,
) -> bool {
    &&& 0 <= i < registrations.len()
    &&& registrations[i].name@ == name
    &&& forall|j: int| 0 <= j < i ==> (#[trigger] registrations[j]).name@ != name
}

/// Load the selected engine by name: the first registration of that name builds
/// it, and an unknown name is an error.
pub fn load_registered_engine<E, F: Fn(&Path) -> Result<E, EngineError>>(
    registrations: &Vec<EngineRegistration<F>>,
    engine_config_dir: &Path,
    name: &str,
) -> (r: Result<E, EngineError>)
    requires
        forall|i: int|
            first_named(registrations@, name@, i) ==> call_requires(
                (#[trigger] registrations@[i]).build,
                (engine_config_dir,),
            ),
    ensures
        forall|i: int| #[trigger]
            first_named(registrations@, name@, i) ==> call_ensures(
                registrations@[i].build,
                (engine_config_dir,),
                r,
            ),
        (forall|i: int| 0 <= i < registrations@.len() ==> (#[trigger] registrations@[i]).name@
            != name@) ==> (r matches Err(EngineError::NoSuchEngine(missing)) && missing@ == name@),
{
    let mut i: usize = 0;
    while i < registrations.len()
        invariant
            i <= registrations@.len(),
            forall|j: int| 0 <= j < i ==> (#[trigger] registrations@[j]).name@ != name@,
            forall|j: int|
                first_named(registrations@, name@, j) ==> call_requires(
                    (#[trigger] registrations@[j]).build,
                    (engine_config_dir,),
                ),
        decreases registrations@.len() - i,
    {
        if same(registrations[i].name, name) {
            assert(first_named(registrations@, name@, i as int));
            let build = &registrations[i].build;
            assert(call_requires(registrations@[i as int].build, (engine_config_dir,)));
            let r = build(engine_config_dir);
            proof {
                assert forall|j: int| #[trigger]
                    first_named(registrations@, name@, j) implies j == i by {
                    if j < i {
                        assert(registrations@[j].name@ != name@);
                    }
                    if i < j {
                        assert(registrations@[i as int].name@ != name@);
                    }
                }
            }
            return r;
        }
        i += 1;
    }
    Err(EngineError::NoSuchEngine(name.to_owned()))
}

/// A VM is evaluated exactly when the ownership policy permits scaling it and no
/// manual override is sticky.
pub proof fn only_managed_vms_without_override_are_evaluated(fleet: Seq<FleetMember>, i: int)
    requires
        0 <= i < fleet.len(),
    ensures
        eligible(fleet).contains(i) <==> fleet[i].scaling_allowed
            && !fleet[i].manual_scaling_sticky,
{
    eligible_is_exact(fleet);
    if eligible(fleet).contains(i) {
        let k = choose|k: int| 0 <= k < eligible(fleet).len() && eligible(fleet)[k] == i;
        assert(is_eligible(fleet[eligible(fleet)[k]]));
    }
}

/// Each verdict goes to the VM that it was given for: in a fleet whose VMs are
/// all evaluated, the decisions follow the fleet one by one.
pub proof fn verdicts_go_to_their_vms(
    fleet: Seq<FleetMember>,
    verdicts: Seq<ScaleAction>,
    plan: Seq<InstanceDecision>,
)
    requires
        is_plan(fleet, verdicts, plan),
        forall|i: int|
            0 <= i < fleet.len() ==> (#[trigger] fleet[i]).scaling_allowed
                && !fleet[i].manual_scaling_sticky,
    ensures
        plan.len() == fleet.len(),
        forall|i: int|
            0 <= i < plan.len() ==> (#[trigger] plan[i]).instance_id@ == fleet[i].id@
                && plan[i].decision == verdicts[i],
{
    lemma_all_eligible(fleet);
    assert forall|i: int| 0 <= i < plan.len() implies (#[trigger] plan[i]).instance_id@
        == fleet[i].id@ && plan[i].decision == verdicts[i] by {
        assert(eligible(fleet)[i] == i);
    }
}

proof fn lemma_all_eligible(fleet: Seq<FleetMember>)
    requires
        forall|i: int|
            0 <= i < fleet.len() ==> (#[trigger] fleet[i]).scaling_allowed
                && !fleet[i].manual_scaling_sticky,
    ensures
        eligible(fleet) == Seq::new(fleet.len(), |i: int| i),
    decreases fleet.len(),
{
    if fleet.len() > 0 {
        let rest = fleet.drop_last();
        assert forall|i: int| 0 <= i < rest.len() implies (#[trigger] rest[i]).scaling_allowed
            && !rest[i].manual_scaling_sticky by {
            assert(rest[i] == fleet[i]);
        }
        lemma_all_eligible(rest);
        assert(fleet.last() == fleet[fleet.len() - 1]);
        assert(eligible(fleet) =~= Seq::new(fleet.len(), |i: int| i));
    }
}

/// Every action but holding names the worker count that it asks for.
pub proof fn actions_name_their_target(target: u32)
    ensures
        ScaleAction::Up(target).wanted() == Some(target),
        ScaleAction::Down(target).wanted() == Some(target),
        ScaleAction::Revert(target).wanted() == Some(target),
        ScaleAction::Hold.wanted() is None,
{
}

} // verus!
