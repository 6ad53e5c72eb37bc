use smith_rs::checks::CheckResult;
use smith_rs::config::{
    AppConfig, AppConfigBrute, RawContactConfig, RawEmailConfig, RawServiceConfig,
    RawSettingConfig, RawSystemConfig, RawTimePeriodConfig, Threshold,
};
use smith_rs::engine::{
    append_perf, display_name, error_log, observations, root_key, CheckInfo, Notification,
    PerfValues, SmithEngine,
};
use smith_rs::registry::Registry;

fn service(name: &str, description: &str, attempts: u32, active: bool) -> RawServiceConfig {
    RawServiceConfig {
        name: name.to_string(),
        register: true,
        use_template: None,
        description: Some(description.to_string()),
        active: Some(active),
        check_interval: Some(15),
        check_attempts: Some(attempts),
        check_time_period: Some("24x7".to_string()),
        warning: Some(Threshold { bits: 90.0f64.to_bits() }),
        critical: Some(Threshold { bits: 95.0f64.to_bits() }),
        disks: None,
        interfaces: None,
        ntp_pool_server: None,
    }
}

fn engine(debug: bool) -> SmithEngine {
    let brute = AppConfigBrute {
        setting: RawSettingConfig {
            log_file_path: "smith-agent.log".to_string(),
            pid_file_path: "smith-agent.pid".to_string(),
            debug,
        },
        system: RawSystemConfig { hostname: "localhost".to_string() },
        email: RawEmailConfig {
            smtp_server: "smtp.example.com".to_string(),
            smtp_port: 587,
            sender_email: "agent@example.com".to_string(),
            smtp_username: None,
            smtp_password: None,
        },
        timeperiods: vec![],
        contacts: vec![],
        services: vec![
            service("disk", "Disk Space", 2, true),
            service("iops", "Disk IOPS", 3, false),
            service("load", "Load Average", 1, true),
        ],
    };
    SmithEngine::new(AppConfig::resolve(brute).ok().unwrap())
}

#[test]
fn root_keys_of_sub_items() {
    assert_eq!(root_key("network_errors_eth0"), "network_errors");
    assert_eq!(root_key("network_errors"), "network_errors");
    assert_eq!(root_key("tcp_states_listen"), "tcp_states");
    assert_eq!(root_key("disk_/var"), "disk");
    assert_eq!(root_key("network_eth0"), "network");
    assert_eq!(root_key("load"), "load");
}

#[test]
fn display_names_keep_the_sub_item() {
    assert_eq!(display_name("Disk Space", "Disk Space (/)"), "Disk Space (/)");
    assert_eq!(display_name("Load Average", "Load Average"), "Load Average");
    assert_eq!(display_name("Desc", "odd(x"), "Desc");
    assert_eq!(display_name("Net", "Network Throughput (eth0)"), "Net (eth0)");
}

#[test]
fn perf_data_is_appended_when_present() {
    assert_eq!(append_perf("m", ""), "m");
    assert_eq!(append_perf("m", "x=1"), "m | x=1");
}

#[test]
fn error_log_line() {
    assert_eq!(
        error_log("T", "localhost", "Disk Space (/)", "SMTP failure: refused"),
        "T - ERROR : localhost;Disk Space (/);Notification failed to send: SMTP failure: refused\n"
    );
}

#[test]
fn multi_results_become_sub_item_observations() {
    let mut items: Registry<(String, String)> = Registry::new();
    items.insert("/".to_string(), ("OK".to_string(), "Used: 1.00%".to_string()));
    items.insert("/var".to_string(), ("WARNING".to_string(), "Used: 91.00%".to_string()));
    let obs = observations("disk", "Disk Space", &CheckResult::Multi(items));
    assert_eq!(obs.len(), 2);
    assert_eq!(obs[0].check_key, "disk_/");
    assert_eq!(obs[0].category, "Disk Space (/)");
    assert_eq!(obs[0].status, "OK");
    assert_eq!(obs[1].check_key, "disk_/var");
    assert_eq!(obs[1].category, "Disk Space (/var)");
    assert_eq!(obs[1].message, "Used: 91.00%");
    let single = CheckResult::Single { status: "OK".to_string(), message: "1min: 0.10".to_string() };
    let obs = observations("load", "Load Average", &single);
    assert_eq!(obs.len(), 1);
    assert_eq!(obs[0].check_key, "load");
    assert_eq!(obs[0].category, "Load Average");
}

#[test]
fn only_active_configured_checks_are_added() {
    let mut e = engine(false);
    let info = |key: &str| CheckInfo { name: key.to_string(), config_key: key.to_string(), default_period: 60 };
    assert!(e.add_check(info("disk")));
    assert!(!e.add_check(info("iops")));
    assert!(!e.add_check(info("ntp")));
    assert_eq!(e.checks.len(), 1);
    assert_eq!(e.checks[0].config_key, "disk");
}

#[test]
fn schedules_come_from_the_service_or_the_check() {
    let e = engine(false);
    assert_eq!(e.schedule("disk", 60), (15, "24x7".to_string()));
    assert_eq!(e.schedule("ntp", 120), (120, "24x7".to_string()));
    assert!(e.can_run("unknown", 0, 0));
}

#[test]
fn soft_then_hard_transition_logs_and_dispatches_once() {
    let mut e = engine(false);
    let perf = "utilization=96.00%;90.00;95.00;0;100";
    let r = e.handle_state_transition("disk_/", "Disk Space (/)", "CRITICAL", "Used: 96.00%", perf, "T", 1, 600);
    assert_eq!(
        r.service_log,
        "T - SERVICE : localhost;Disk Space (/);CRITICAL;SOFT/1;Used: 96.00% | utilization=96.00%;90.00;95.00;0;100\n"
    );
    assert!(matches!(r.notification, Notification::Silent));
    let r = e.handle_state_transition("disk_/", "Disk Space (/)", "CRITICAL", "Used: 96.00%", perf, "T", 1, 600);
    assert_eq!(
        r.service_log,
        "T - SERVICE : localhost;Disk Space (/);CRITICAL;HARD/2;Used: 96.00% | utilization=96.00%;90.00;95.00;0;100\n"
    );
    match r.notification {
        Notification::Dispatch { log, alert } => {
            assert_eq!(
                log,
                "T - NOTIFICATION : localhost;Disk Space (/);CRITICAL;Used: 96.00% | utilization=96.00%;90.00;95.00;0;100\n"
            );
            assert_eq!(alert.check_key, "disk_/");
            assert_eq!(alert.display_name, "Disk Space (/)");
            assert_eq!(alert.state, "CRITICAL");
            assert_eq!(alert.message, "Used: 96.00% | utilization=96.00%;90.00;95.00;0;100");
            assert!(alert.recipients.is_empty());
        }
        _ => panic!("expected a dispatched alert"),
    }
    let r = e.handle_state_transition("disk_/", "Disk Space (/)", "CRITICAL", "Used: 96.00%", "", "T", 1, 600);
    assert!(matches!(r.notification, Notification::Silent));
    let r = e.handle_state_transition("disk_/var", "Disk Space (/var)", "OK", "Used: 1.00%", "", "T", 1, 600);
    assert_eq!(r.service_log, "T - SERVICE : localhost;Disk Space (/var);OK;HARD/2;Used: 1.00%\n");
    let r = e.handle_state_transition("disk_/", "Disk Space (/)", "OK", "Used: 50.00%", "", "T", 1, 600);
    assert_eq!(r.service_log, "T - SERVICE : localhost;Disk Space (/);OK;HARD/1;Used: 50.00%\n");
    assert!(matches!(r.notification, Notification::Dispatch { .. }));
}

#[test]
fn debug_mode_suppresses_alerts() {
    let mut e = engine(true);
    let r = e.handle_state_transition("load", "Load Average", "WARNING", "1min: 17.00", "", "T", 1, 600);
    assert_eq!(r.service_log, "T - SERVICE : localhost;Load Average;WARNING;HARD/1;1min: 17.00\n");
    match r.notification {
        Notification::Suppressed { log } => assert_eq!(
            log,
            "T - [DEBUG] : localhost;Load Average;WARNING;Alert trigger bypassed (SMTP suppressed in debug mode)\n"
        ),
        _ => panic!("expected a suppressed alert"),
    }
}

#[test]
fn unknown_services_get_three_attempts_and_their_key_as_name() {
    let mut e = engine(false);
    for attempt in 1..=2 {
        let r = e.handle_state_transition("tcp_states", "TCP", "CRITICAL", "m", "", "T", 1, 600);
        assert_eq!(r.service_log, format!("T - SERVICE : localhost;tcp_states;CRITICAL;SOFT/{};m\n", attempt));
    }
    let r = e.handle_state_transition("tcp_states", "TCP", "CRITICAL", "m", "", "T", 1, 600);
    assert_eq!(r.service_log, "T - SERVICE : localhost;tcp_states;CRITICAL;HARD/3;m\n");
    assert!(matches!(r.notification, Notification::Dispatch { .. }));
}

fn values(key: &str, message: &str) -> PerfValues {
    engine(false).extract_perf_data(key, message).values
}

#[test]
fn perf_numbers_by_service() {
    match values("load", "1min: 1.81, 5min: 1.77, 15min: 2.22") {
        PerfValues::Load { one, five, fifteen } => {
            assert_eq!((one.as_str(), five.as_str(), fifteen.as_str()), ("1.81", "1.77", "2.22"))
        }
        _ => panic!("load"),
    }
    assert!(matches!(values("load", "1min: 1.81"), PerfValues::Nothing));
    match values("swap", "Swap utilization: 12.50%") {
        PerfValues::Percent { label, value } => {
            assert_eq!(label, "swap");
            assert_eq!(value, "12.50");
        }
        _ => panic!("swap"),
    }
    match values("memory", "RAM: 45.1% used (1000 MB / 2000 MB)") {
        PerfValues::Percent { value, .. } => assert_eq!(value, "45.1"),
        _ => panic!("memory"),
    }
    assert!(matches!(values("iowait", "no colon"), PerfValues::Nothing));
    match values("disk", "Used: 62.45%") {
        PerfValues::Utilization { used } => assert_eq!(used, Some("62.45".to_string())),
        _ => panic!("disk"),
    }
    match values("inodes", "Failed statvfs execution for path: /x") {
        PerfValues::Utilization { used } => assert_eq!(used, None),
        _ => panic!("inodes"),
    }
    match values("iops", "Total IOPS: 150.2 (Read: 50.0/s, Write: 100.2/s)") {
        PerfValues::Iops { total } => assert_eq!(total, "150.2"),
        _ => panic!("iops"),
    }
    match values("iops", "Initializing") {
        PerfValues::Iops { total } => assert_eq!(total, "0"),
        _ => panic!("iops short"),
    }
    match values("network", "Total: 45.20 Mbps (RX: 20.10 Mbps, TX: 25.10 Mbps)") {
        PerfValues::Throughput { total } => assert_eq!(total, "45.20"),
        _ => panic!("network"),
    }
    match values("network_errors", "Errors: 2 (0.10/s), Dropped: 0 (0.00/s)") {
        PerfValues::NetworkErrors { errors, dropped } => {
            assert_eq!(errors, "0.10");
            assert_eq!(dropped, "0.00");
        }
        _ => panic!("network_errors"),
    }
    match values("network_errors", "0.10 errors/sec (Total RX: 1, TX: 2)") {
        PerfValues::NetworkErrors { errors, dropped } => {
            assert_eq!(errors, "Total RX: 1");
            assert_eq!(dropped, "0");
        }
        _ => panic!("network_errors actual"),
    }
    match values("ntp", "Offset: 0.0012s") {
        PerfValues::Offset { offset } => assert_eq!(offset, "0.0012"),
        _ => panic!("ntp"),
    }
    assert!(matches!(values("tcp_states", "x"), PerfValues::Nothing));
}

#[test]
fn perf_thresholds_come_from_the_service() {
    let e = engine(false);
    let p = e.extract_perf_data("disk", "Used: 1%");
    assert_eq!(f64::from_bits(p.warning.bits), 90.0);
    assert_eq!(f64::from_bits(p.critical.bits), 95.0);
    let p = e.extract_perf_data("ntp", "Offset: 1s");
    assert_eq!(p.warning.bits, 0);
    assert_eq!(p.critical.bits, 0);
}

fn day(window: &str) -> Option<String> {
    Some(window.to_string())
}

fn routed_engine() -> SmithEngine {
    let work = RawTimePeriodConfig {
        name: "work_hours".to_string(),
        register: true,
        use_template: None,
        alias: None,
        sunday: day("00:00-00:00"),
        monday: day("09:00-17:00"),
        tuesday: day("09:00-17:00"),
        wednesday: day("09:00-17:00"),
        thursday: day("09:00-17:00"),
        friday: day("09:00-17:00"),
        saturday: day("00:00-00:00"),
    };
    let contact = |name: &str, email: &str, period: &str, options: &[&str]| RawContactConfig {
        name: name.to_string(),
        register: true,
        use_template: None,
        alias: None,
        email: Some(email.to_string()),
        notification_period: Some(period.to_string()),
        notification_options: Some(options.iter().map(|o| o.to_string()).collect()),
    };
    let brute = AppConfigBrute {
        setting: RawSettingConfig {
            log_file_path: "smith-agent.log".to_string(),
            pid_file_path: "smith-agent.pid".to_string(),
            debug: false,
        },
        system: RawSystemConfig { hostname: "localhost".to_string() },
        email: RawEmailConfig {
            smtp_server: "smtp.example.com".to_string(),
            smtp_port: 587,
            sender_email: "agent@example.com".to_string(),
            smtp_username: None,
            smtp_password: None,
        },
        timeperiods: vec![work],
        contacts: vec![
            contact("oncall", "oncall@example.com", "work_hours", &["w", "c", "r"]),
            contact("night", "night@example.com", "24x7", &["c"]),
            contact("quiet", "quiet@example.com", "24x7", &[]),
        ],
        services: vec![service("disk", "Disk Space", 2, true)],
    };
    SmithEngine::new(AppConfig::resolve(brute).ok().unwrap())
}

#[test]
fn time_periods_gate_checks() {
    let e = routed_engine();
    assert!(e.can_run("work_hours", 1, 9 * 60));
    assert!(!e.can_run("work_hours", 1, 17 * 60));
    assert!(!e.can_run("work_hours", 0, 12 * 60));
    assert!(e.can_run("24x7", 0, 12 * 60));
}

#[test]
fn warning_then_critical_reaches_hard_at_check_attempts() {
    let mut e = routed_engine();
    let r = e.handle_state_transition("disk_/", "Disk Space (/)", "WARNING", "m1", "", "T", 1, 600);
    assert_eq!(r.service_log, "T - SERVICE : localhost;Disk Space (/);WARNING;SOFT/1;m1\n");
    assert!(matches!(r.notification, Notification::Silent));
    assert!(!e.transition_overflows("disk_/", "CRITICAL"));
    let r = e.handle_state_transition("disk_/", "Disk Space (/)", "CRITICAL", "m2", "", "T", 1, 600);
    assert_eq!(r.service_log, "T - SERVICE : localhost;Disk Space (/);CRITICAL;HARD/2;m2\n");
    match r.notification {
        Notification::Dispatch { alert, .. } => {
            assert_eq!(alert.state, "CRITICAL");
            assert_eq!(
                alert.recipients,
                vec!["oncall@example.com".to_string(), "night@example.com".to_string()]
            );
        }
        _ => panic!("expected a dispatched alert"),
    }
}

#[test]
fn alerts_go_to_contacts_whose_period_and_options_match() {
    let mut e = routed_engine();
    e.handle_state_transition("disk_/", "Disk Space (/)", "CRITICAL", "m", "", "T", 0, 600);
    let r = e.handle_state_transition("disk_/", "Disk Space (/)", "CRITICAL", "m", "", "T", 0, 600);
    match r.notification {
        Notification::Dispatch { alert, .. } => {
            assert_eq!(alert.recipients, vec!["night@example.com".to_string()])
        }
        _ => panic!("expected a dispatched alert"),
    }
    let r = e.handle_state_transition("disk_/", "Disk Space (/)", "OK", "m", "", "T", 3, 10 * 60);
    match r.notification {
        Notification::Dispatch { alert, .. } => {
            assert_eq!(alert.recipients, vec!["oncall@example.com".to_string()])
        }
        _ => panic!("expected a recovery alert"),
    }
    let c = &e.config;
    assert_eq!(c.alert_recipients("UNKNOWN", 3, 600), Vec::<String>::new());
    assert_eq!(c.alert_recipients("WARNING", 3, 600), vec!["oncall@example.com".to_string()]);
}
