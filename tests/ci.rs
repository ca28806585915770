use time_tracking::ci::{
    BenchCheckCommand, CfgCheckCommand, DocCheckCommand, LintsCommand, LintsStep, RustChannel,
};

#[test]
fn bench_check_invocations() {
    let plain = BenchCheckCommand::run_with_intermediate();
    assert_eq!(plain.command, "check");
    assert_eq!(plain.json_name, None);
    assert_eq!(plain.channel, RustChannel::Stable);
    assert_eq!(plain.flags, vec!["--benches", "--target-dir", "../target"]);
    assert!(plain.env_vars.is_empty());
    let json = BenchCheckCommand::run_with_intermediate_json();
    assert_eq!(json.json_name.as_deref(), Some("bench-check"));
    assert_eq!(json.flags, plain.flags);
}

#[test]
fn cfg_check_invocations() {
    let plain = CfgCheckCommand::run_with_intermediate();
    assert_eq!(plain.command, "check");
    assert_eq!(plain.channel, RustChannel::Nightly);
    assert_eq!(plain.flags, vec!["-Zcheck-cfg", "--workspace"]);
    assert_eq!(plain.env_vars, vec![("RUSTFLAGS".to_string(), "-D warnings".to_string())]);
    assert_eq!(CfgCheckCommand::run_with_intermediate_json().json_name.as_deref(), Some("cfg-check"));
}

#[test]
fn doc_check_invocations() {
    let plain = DocCheckCommand::run_with_intermediate();
    assert_eq!(plain.command, "doc");
    assert_eq!(plain.channel, RustChannel::Stable);
    assert_eq!(plain.flags, vec!["--workspace", "--all-features", "--no-deps", "--document-private-items"]);
    assert_eq!(DocCheckCommand::run_with_intermediate_json().json_name.as_deref(), Some("doc-check"));
}

#[test]
fn run_picks_the_report_form() {
    assert_eq!(BenchCheckCommand { emit_json: true }.run().json_name.as_deref(), Some("bench-check"));
    assert_eq!(CfgCheckCommand { emit_json: false }.run().json_name, None);
    assert_eq!(DocCheckCommand { emit_json: true }.run().command, "doc");
}

#[test]
fn lints_stop_after_failed_format_by_default() {
    assert_eq!(LintsCommand {}.run(false, Err(())), LintsStep::Finish(Err(())));
}

#[test]
fn lints_go_on_to_clippy() {
    assert_eq!(LintsCommand {}.run(false, Ok(())), LintsStep::RunClippy);
    assert_eq!(LintsCommand {}.run(true, Err(())), LintsStep::RunClippy);
    assert_eq!(LintsCommand {}.run(true, Ok(())), LintsStep::RunClippy);
}
