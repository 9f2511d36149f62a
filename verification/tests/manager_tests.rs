use clash_verge_service::config::RuntimeConfig;
use clash_verge_service::manager::{CoreError, CoreManager};

fn sample_config() -> RuntimeConfig {
    RuntimeConfig {
        bin_path: "/usr/bin/max-mihomo".to_string(),
        config_dir: "/etc/mihomo".to_string(),
        config_file: "config.yaml".to_string(),
        log_file: "/var/log/mihomo.log".to_string(),
    }
}

#[test]
fn fresh_manager_reports_default_config() {
    let m = CoreManager::new();
    let cfg = m.get_clash_status();
    assert_eq!(cfg.bin_path, "");
    assert_eq!(cfg.config_dir, "");
    assert_eq!(cfg.config_file, "");
    assert_eq!(cfg.log_file, "");
}

#[test]
fn start_clash_enables_and_returns_dry_run_command() {
    let mut m = CoreManager::new();
    let cmd = m.start_clash(sample_config(), 42);
    assert!(m.clash_status.running);
    assert_eq!(m.clash_status.tracked_pid, 42);
    assert_eq!(cmd.bin_path, "/usr/bin/max-mihomo");
    assert_eq!(cmd.args, vec!["-d", "/etc/mihomo", "-f", "config.yaml", "-t"]);
    assert!(cmd.log_file.is_none());
    let got = m.get_clash_status();
    assert_eq!(got.config_dir, "/etc/mihomo");
    assert_eq!(got.log_file, "/var/log/mihomo.log");
}

#[test]
fn start_clash_twice_keeps_first_pid_and_replaces_config() {
    let mut m = CoreManager::new();
    m.start_clash(sample_config(), 42);
    let mut second = sample_config();
    second.config_file = "other.yaml".to_string();
    m.start_clash(second, 43);
    assert_eq!(m.clash_status.tracked_pid, 42);
    assert_eq!(m.get_clash_status().config_file, "other.yaml");
}

#[test]
fn test_config_file_without_config_fails() {
    let m = CoreManager::new();
    let r = m.test_config_file();
    assert!(matches!(r, Err(CoreError::NotConfigured)));
    assert_eq!(CoreError::NotConfigured.message(), "Runtime config is not set");
}

#[test]
fn test_config_file_builds_dry_run_command() {
    let mut m = CoreManager::new();
    m.start_clash(sample_config(), 42);
    let cmd = m.test_config_file().unwrap();
    assert_eq!(cmd.args, vec!["-d", "/etc/mihomo", "-f", "config.yaml", "-t"]);
    assert!(cmd.log_file.is_none());
}

#[test]
fn start_mihomo_without_config_fails() {
    let mut m = CoreManager::new();
    let plan = m.start_mihomo();
    assert!(plan.stop_first.is_none());
    assert!(matches!(plan.launch, Err(CoreError::NotConfigured)));
    let (running, pid) = m.get_mihomo_snapshot();
    assert!(!running);
    assert!(pid <= 0);
}

#[test]
fn start_mihomo_commit_tracks_spawned_pid() {
    let mut m = CoreManager::new();
    m.start_clash(sample_config(), 42);
    let plan = m.start_mihomo();
    let cmd = plan.launch.unwrap();
    assert_eq!(cmd.args, vec!["-d", "/etc/mihomo", "-f", "config.yaml"]);
    assert_eq!(cmd.log_file.as_deref(), Some("/var/log/mihomo.log"));
    m.start_mihomo_commit(101);
    let (running, pid) = m.get_mihomo_snapshot();
    assert!(running);
    assert_eq!(pid, 101);
}

#[test]
fn stop_mihomo_resets_slot_even_without_kill_result() {
    let mut m = CoreManager::new();
    m.start_clash(sample_config(), 42);
    m.start_mihomo();
    m.start_mihomo_commit(101);
    let to_kill = m.stop_mihomo();
    assert_eq!(to_kill, Some(101));
    let (running, pid) = m.get_mihomo_snapshot();
    assert!(!running);
    assert!(pid <= 0);
    let again = m.stop_mihomo();
    assert_eq!(again, None);
    let (running2, pid2) = m.get_mihomo_snapshot();
    assert!(!running2);
    assert!(pid2 <= 0);
}

#[test]
fn restart_stops_prior_instance_before_spawning() {
    let mut m = CoreManager::new();
    m.start_clash(sample_config(), 42);
    m.start_mihomo();
    m.start_mihomo_commit(101);
    let plan = m.start_mihomo();
    assert_eq!(plan.stop_first, Some(101));
    assert!(plan.launch.is_ok());
    let found = vec![101u32, 42u32];
    let sweep = m.stop_other_mihomo_processes(42, &found);
    assert_eq!(sweep, vec![101u32]);
    m.start_mihomo_commit(202);
    let (running, pid) = m.get_mihomo_snapshot();
    assert!(running);
    assert_eq!(pid, 202);
}

#[test]
fn sweep_spares_own_pid_and_tracked_pid() {
    let mut m = CoreManager::new();
    m.start_clash(sample_config(), 42);
    m.start_mihomo();
    m.start_mihomo_commit(101);
    let found = vec![100u32, 42u32, 101u32, 7u32];
    let sweep = m.stop_other_mihomo_processes(42, &found);
    assert_eq!(sweep, vec![100u32, 7u32]);
}

#[test]
fn sweep_with_nothing_tracked_spares_only_own_pid() {
    let m = CoreManager::new();
    let found = vec![100u32, 42u32, 7u32];
    let sweep = m.stop_other_mihomo_processes(42, &found);
    assert_eq!(sweep, vec![100u32, 7u32]);
}

#[test]
fn stop_clash_when_never_enabled_is_noop() {
    let mut m = CoreManager::new();
    let plan = m.stop_clash();
    assert!(plan.is_none());
    assert!(!m.clash_status.running);
    assert_eq!(m.clash_status.tracked_pid, -1);
    let cfg = m.get_clash_status();
    assert_eq!(cfg.bin_path, "");
}

#[test]
fn stop_clash_resets_both_slots() {
    let mut m = CoreManager::new();
    m.start_clash(sample_config(), 42);
    m.start_mihomo();
    m.start_mihomo_commit(101);
    let plan = m.stop_clash().unwrap();
    assert_eq!(plan.kill_logical, 42);
    assert_eq!(plan.kill_core, Some(101));
    assert!(!m.clash_status.running);
    assert_eq!(m.clash_status.tracked_pid, -1);
    let (running, pid) = m.get_mihomo_snapshot();
    assert!(!running);
    assert!(pid <= 0);
    assert_eq!(m.get_clash_status().config_dir, "/etc/mihomo");
}

#[test]
fn version_reports_service_identity() {
    let m = CoreManager::new();
    let v = m.get_version();
    assert_eq!(v.service, "Clash Max Service");
    assert_eq!(v.version, "1.0.0");
}
