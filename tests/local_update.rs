use pupdate::local::{CommandOutput, LocalStep, LocalUpdate};
use pupdate::plan::{local_log_artifacts, log_artifacts, run_log_dir_name, LogDirError};

fn output(success: bool, out: &str, err: &str) -> CommandOutput {
    CommandOutput { success, stdout: out.as_bytes().to_vec(), stderr: err.as_bytes().to_vec() }
}

#[test]
fn failed_refresh_skips_upgrades() {
    let mut u = LocalUpdate::new();
    assert_eq!(u.step(), LocalStep::RefreshIndex);
    u.command_finished(output(false, "refresh out", "refresh err"));
    assert_eq!(u.step(), LocalStep::Finished(false));
    let (out, err) = u.log_streams();
    assert_eq!(out, b"refresh out".to_vec());
    assert_eq!(err, b"refresh err".to_vec());
}

#[test]
fn successful_refresh_runs_upgrades() {
    let mut u = LocalUpdate::new();
    u.command_finished(output(true, "a", "b"));
    assert_eq!(u.step(), LocalStep::ApplyUpgrades);
    u.command_finished(output(true, "c", "d"));
    assert_eq!(u.step(), LocalStep::Finished(true));
    let (out, err) = u.log_streams();
    assert_eq!(out, b"ac".to_vec());
    assert_eq!(err, b"bd".to_vec());
}

#[test]
fn failed_upgrade_fails_local() {
    let mut u = LocalUpdate::new();
    u.command_finished(output(true, "a", ""));
    u.command_finished(output(false, "c", "boom"));
    assert_eq!(u.step(), LocalStep::Finished(false));
    let (out, err) = u.log_streams();
    assert_eq!(out, b"ac".to_vec());
    assert_eq!(err, b"boom".to_vec());
}

#[test]
fn command_not_started_fails_local() {
    let mut u = LocalUpdate::new();
    u.command_not_started();
    assert_eq!(u.step(), LocalStep::Finished(false));
    let (out, err) = u.log_streams();
    assert!(out.is_empty());
    assert!(err.is_empty());
}

#[test]
fn logging_disabled_writes_nothing() {
    let a = log_artifacts(false, "host", &b"out".to_vec(), &b"err".to_vec());
    assert!(a.is_empty());
    let a = local_log_artifacts(false, &b"out".to_vec(), &b"err".to_vec());
    assert!(a.is_empty());
}

#[test]
fn logging_names_files_after_target() {
    let a = log_artifacts(true, "host1", &b"out".to_vec(), &b"err".to_vec());
    assert_eq!(a.len(), 2);
    assert_eq!(a[0].file_name, "host1.stdout.log");
    assert_eq!(a[0].contents, b"out".to_vec());
    assert_eq!(a[1].file_name, "host1.stderr.log");
    assert_eq!(a[1].contents, b"err".to_vec());
    let l = local_log_artifacts(true, &Vec::new(), &b"e".to_vec());
    assert_eq!(l[0].file_name, "local.stdout.log");
    assert_eq!(l[1].file_name, "local.stderr.log");
    assert_eq!(l[1].contents, b"e".to_vec());
}

#[test]
fn log_dir_named_after_start_time() {
    assert_eq!(run_log_dir_name(0), Ok("1970-01-01T00:00:00Z".to_string()));
    assert_eq!(
        run_log_dir_name(86_400_000_000_000 + 3_723_000_000_000),
        Ok("1970-01-02T01:02:03Z".to_string())
    );
    assert_eq!(run_log_dir_name(i128::MAX), Err(LogDirError::UnformattableTime));
}
