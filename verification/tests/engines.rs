use io_thread_controller::engines::{
    eligible_members, evaluate_fleet, load_registered_engine, AppliedOutcome, BlockedReason,
    EngineError, EngineRegistration, FleetMember, InstanceDecision, ScaleAction,
};
use io_thread_controller::backends::BackendClientError;
use io_thread_controller::util::Path;

/// `ScaleAction::target` and its text cover every variant.
#[test]
fn scale_action_target_and_display() {
    assert_eq!(ScaleAction::Hold.target(), None);
    assert_eq!(ScaleAction::Up(4).target(), Some(4));
    assert_eq!(ScaleAction::Down(2).target(), Some(2));
    assert_eq!(ScaleAction::Revert(3).target(), Some(3));

    assert_eq!(ScaleAction::Hold.to_string(), "none");
    assert_eq!(ScaleAction::Up(1).to_string(), "up");
    assert_eq!(ScaleAction::Down(1).to_string(), "down");
    assert_eq!(ScaleAction::Revert(1).to_string(), "revert");
}

/// `InstanceDecision::new` stores the VM id and the action unchanged.
#[test]
fn instance_decision_new_preserves_fields() {
    let decision = InstanceDecision::new("vm-1", ScaleAction::Up(5));
    assert_eq!(decision.instance_id, "vm-1");
    assert_eq!(decision.decision, ScaleAction::Up(5));
}

struct Engine {
    name: &'static str,
    dir: String,
}

fn build_threshold(dir: &Path) -> Result<Engine, EngineError> {
    Ok(Engine { name: "threshold", dir: dir.as_str().to_string() })
}

/// The registry loads the threshold engine by name and refuses unknown names.
#[test]
fn load_registered_engine_finds_threshold_and_rejects_unknown() {
    let registrations = vec![EngineRegistration { name: "threshold", build: build_threshold }];
    let dir = Path::new("/", "/tmp/missing-engines");
    let engine = load_registered_engine(&registrations, &dir, "threshold").unwrap();
    assert_eq!(engine.name, "threshold");
    assert_eq!(engine.dir, "/tmp/missing-engines");

    match load_registered_engine(&registrations, &dir, "no-such-engine") {
        Err(EngineError::NoSuchEngine(name)) => assert_eq!(name, "no-such-engine"),
        Ok(_) => panic!("expected NoSuchEngine"),
        Err(other) => panic!("expected NoSuchEngine, got {}", other.to_string()),
    }
}

fn build_broken(_dir: &Path) -> Result<Engine, EngineError> {
    Err(EngineError::Engine("no such file".to_string()))
}

#[test]
fn a_failing_engine_factory_reports_its_error() {
    let registrations = vec![EngineRegistration { name: "threshold", build: build_broken }];
    let dir = Path::new("/", "/etc/engines");
    match load_registered_engine(&registrations, &dir, "threshold") {
        Err(error) => assert_eq!(error.to_string(), "no such file"),
        Ok(_) => panic!("expected an error"),
    }
}

#[test]
fn the_first_engine_of_a_name_wins() {
    fn first(_dir: &Path) -> Result<u32, EngineError> {
        Ok(1)
    }
    let registrations = vec![
        EngineRegistration { name: "a", build: first as fn(&Path) -> Result<u32, EngineError> },
        EngineRegistration { name: "a", build: second },
    ];
    fn second(_dir: &Path) -> Result<u32, EngineError> {
        Ok(2)
    }
    let dir = Path::new("/", "/");
    assert_eq!(load_registered_engine(&registrations, &dir, "a").unwrap(), 1);
}

#[test]
fn unknown_engines_are_named_in_the_message() {
    let registrations: Vec<EngineRegistration<fn(&Path) -> Result<u32, EngineError>>> = Vec::new();
    let dir = Path::new("/", "/");
    let error = load_registered_engine(&registrations, &dir, "spline").unwrap_err();
    assert_eq!(error.to_string(), "no engine: spline");
}

fn member(id: &str, sticky: bool, allowed: bool) -> FleetMember {
    FleetMember {
        id: id.to_string(),
        manual_scaling_sticky: sticky,
        scaling_allowed: allowed,
    }
}

#[test]
fn plans_leave_out_overridden_and_unmanaged_vms() {
    let fleet = vec![
        member("a", false, true),
        member("b", true, true),
        member("c", false, false),
        member("d", false, true),
    ];
    assert_eq!(eligible_members(&fleet), vec![0, 3]);
    let plan = evaluate_fleet(&fleet, &vec![ScaleAction::Up(2), ScaleAction::Hold]);
    assert_eq!(plan.len(), 2);
    assert_eq!(plan[0], InstanceDecision::new("a", ScaleAction::Up(2)));
    assert_eq!(plan[1], InstanceDecision::new("d", ScaleAction::Hold));
}

#[test]
fn an_empty_fleet_has_an_empty_plan() {
    assert!(eligible_members(&Vec::new()).is_empty());
    assert!(evaluate_fleet(&Vec::new(), &Vec::new()).is_empty());
}

#[test]
fn blocked_reasons_have_texts() {
    let texts = vec![
        (BlockedReason::ManualOverride, "manual override is sticky"),
        (BlockedReason::UnmanagedVm, "VM is not managed by the controller"),
        (BlockedReason::TargetBelowMinimum, "target is below controller minimum"),
        (BlockedReason::TargetExceedsMaximum, "target exceeds controller maximum"),
        (BlockedReason::TargetExceedsVcpuCount, "target exceeds vCPU count"),
        (BlockedReason::HostCpuCeiling, "host CPU is at or above scale-up ceiling"),
        (BlockedReason::Cooldown, "VM is in post-action cooldown"),
    ];
    for (reason, text) in texts {
        assert_eq!(reason.to_string(), text);
    }
}

#[test]
fn outcomes_carry_what_happened() {
    let outcome = AppliedOutcome::Failed {
        action: ScaleAction::Up(3),
        error: BackendClientError::Transport("reset".to_string()),
    };
    match outcome {
        AppliedOutcome::Failed { action, error } => {
            assert_eq!(action.target(), Some(3));
            assert_eq!(error.to_string(), "transport: reset");
        }
        _ => panic!("wrong outcome"),
    }
    assert_eq!(ScaleAction::default(), ScaleAction::Hold);
}
