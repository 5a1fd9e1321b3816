use io_thread_controller::cgroup::{
    cgroup_base, cgroup_sample, parse_cpu_max, parse_cpu_stat, CgroupEntry, CgroupError, CpuMax,
    CpuQuota, NumberReading,
};
use io_thread_controller::text::IntFault;

fn entry(hierarchy: u32, controllers: &[&str], pathname: &str) -> CgroupEntry {
    CgroupEntry {
        hierarchy,
        controllers: controllers.iter().map(|c| c.to_string()).collect(),
        pathname: pathname.to_string(),
    }
}

#[test]
fn the_unified_hierarchy_gives_the_directory() {
    let entries = vec![
        entry(4, &["memory"], "/old"),
        entry(0, &["cpu"], "/mixed"),
        entry(0, &[], "/machine.slice/vm"),
        entry(0, &[], "/second"),
    ];
    assert_eq!(cgroup_base(&entries).unwrap(), "/sys/fs/cgroup/machine.slice/vm");
}

#[test]
fn a_process_without_a_unified_cgroup_is_an_error() {
    match cgroup_base(&vec![entry(4, &["memory"], "/old")]) {
        Err(error) => assert_eq!(error.to_string(), "missing file `cgroup path`"),
        Ok(_) => panic!("expected an error"),
    }
}

#[test]
fn cpu_max_has_two_fields() {
    let max = parse_cpu_max("200000 100000\n").unwrap();
    assert_eq!(max.quota, Some("200000".to_string()));
    assert_eq!(max.period, "100000");
    let max = parse_cpu_max("max 100000 extra").unwrap();
    assert_eq!(max.quota, None);
    assert_eq!(parse_cpu_max(" \n").unwrap_err().to_string(), "missing field `quota`");
    assert_eq!(parse_cpu_max("max\n").unwrap_err().to_string(), "missing field `period`");
}

#[test]
fn cpu_stat_counters_are_read() {
    let text = "usage_usec 12\nnr_throttled 3\nthrottled_usec 45\nnr_throttled 4\nnr_throttled\n";
    let counters = parse_cpu_stat(text).unwrap();
    assert_eq!(counters.nr_throttled, 4);
    assert_eq!(counters.throttled_usec, 45);
    let counters = parse_cpu_stat("").unwrap();
    assert_eq!(counters.nr_throttled, 0);
    assert_eq!(counters.throttled_usec, 0);
}

#[test]
fn malformed_counters_are_errors() {
    let error = match parse_cpu_stat("nr_throttled x\n") {
        Err(error) => error,
        Ok(_) => panic!("expected an error"),
    };
    assert!(matches!(error, CgroupError::ParseInt(IntFault::InvalidDigit)));
    assert_eq!(error.to_string(), "invalid digit found in string");
    match parse_cpu_stat("throttled_usec 18446744073709551616") {
        Err(error) => {
            assert_eq!(error.to_string(), "number too large to fit in target type")
        }
        Ok(_) => panic!("expected an error"),
    }
}

fn limited() -> CpuMax {
    CpuMax {
        quota: Some("200000".to_string()),
        period: "100000".to_string(),
    }
}

#[test]
fn samples_hold_the_quota_and_the_counters() {
    let sample = cgroup_sample(
        limited(),
        NumberReading::Usable,
        NumberReading::Usable,
        "nr_throttled 2\nthrottled_usec 7\n",
    )
    .unwrap();
    match sample.quota {
        CpuQuota::Limited { quota, period } => {
            assert_eq!(quota, "200000");
            assert_eq!(period, "100000");
        }
        CpuQuota::Unlimited => panic!("expected a limit"),
    }
    assert_eq!(sample.nr_throttled, 2);
    assert_eq!(sample.throttled_usec, 7);
    let max = CpuMax { quota: None, period: "100000".to_string() };
    let sample = cgroup_sample(
        max,
        NumberReading::Usable,
        NumberReading::Malformed("unused".to_string()),
        "",
    )
    .unwrap();
    assert!(matches!(sample.quota, CpuQuota::Unlimited));
}

#[test]
fn the_period_is_checked_before_the_quota() {
    let bad = || NumberReading::Malformed("invalid float literal".to_string());
    let error = cgroup_sample(limited(), bad(), NumberReading::Usable, "").unwrap_err();
    assert_eq!(error.to_string(), "invalid float literal");
    let error = cgroup_sample(limited(), NumberReading::NotPositive, bad(), "").unwrap_err();
    assert_eq!(error.to_string(), "invalid value: cpu.max period must be positive");
    let error = cgroup_sample(limited(), NumberReading::Usable, bad(), "").unwrap_err();
    assert!(matches!(error, CgroupError::ParseFloat(_)));
    let error = cgroup_sample(
        limited(),
        NumberReading::Usable,
        NumberReading::NotPositive,
        "nr_throttled ",
    );
    assert!(error.is_ok());
    assert_eq!(CgroupError::Io("denied".to_string()).to_string(), "denied");
    assert_eq!(CgroupError::Proc("gone".to_string()).to_string(), "gone");
    assert_eq!(
        CgroupError::ParseInt(IntFault::Empty).to_string(),
        "cannot parse integer from empty string"
    );
}
