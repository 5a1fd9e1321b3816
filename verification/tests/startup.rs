use io_thread_controller::startup::{
    config_source, plan_start, ConfigOpen, ConfigSource, IoThreadControllerError, LineFormat,
    LogStyle, Start,
};

#[test]
fn auto_style_follows_journald() {
    assert_eq!(LogStyle::Auto.effective(true), LogStyle::Systemd);
    assert_eq!(LogStyle::Auto.effective(false), LogStyle::Human);
    assert_eq!(LogStyle::Human.effective(true), LogStyle::Human);
    assert_eq!(LogStyle::Systemd.effective(false), LogStyle::Systemd);
    assert_eq!(LogStyle::Json.effective(true), LogStyle::Json);
}

#[test]
fn compact_lines_have_neither_timestamp_nor_target() {
    assert_eq!(
        LogStyle::Auto.line_format(true),
        LineFormat { json: false, timestamp: false, target: false }
    );
    assert_eq!(
        LogStyle::Human.line_format(true),
        LineFormat { json: false, timestamp: true, target: true }
    );
    assert_eq!(
        LogStyle::Json.line_format(false),
        LineFormat { json: true, timestamp: true, target: true }
    );
}

#[test]
fn defaults_stand_in_for_an_absent_file_only() {
    assert_eq!(config_source(ConfigOpen::Opened), Ok(ConfigSource::File));
    assert_eq!(config_source(ConfigOpen::NotFound), Ok(ConfigSource::Defaults));
    assert_eq!(
        config_source(ConfigOpen::Failed("denied".to_string())),
        Err("denied".to_string())
    );
}

#[test]
fn the_first_backend_that_offers_a_subcommand_runs_it() {
    let commands = vec![None, Some("qemu".to_string()), Some("qemu".to_string())];
    assert_eq!(
        plan_start(false, Some("qemu".to_string()), &commands).unwrap(),
        Start::RunBackend(1)
    );
    assert_eq!(plan_start(false, None, &commands).unwrap(), Start::Serve);
    assert_eq!(
        plan_start(true, Some("qemu".to_string()), &commands).unwrap(),
        Start::DumpConfig
    );
}

#[test]
fn unknown_subcommands_are_refused() {
    let error = plan_start(false, Some("xen".to_string()), &Vec::new()).unwrap_err();
    assert_eq!(error.to_string(), "no backend `xen`");
}

#[test]
fn startup_errors_pass_their_cause_on() {
    let errors = vec![
        IoThreadControllerError::Clap("a".to_string()),
        IoThreadControllerError::Config("a".to_string()),
        IoThreadControllerError::BackendClient("a".to_string()),
        IoThreadControllerError::Daemon("a".to_string()),
    ];
    for error in errors {
        assert_eq!(error.to_string(), "a");
    }
}
