use smith_rs::checks::disk::DiskUsageCheck;
use smith_rs::checks::inodes::InodesUsageCheck;
use smith_rs::checks::iops::{IopsCheck, IopsSample};
use smith_rs::checks::iowait::{CpuLine, IoWaitCheck, IoWaitSample};
use smith_rs::checks::load::LoadAverageCheck;
use smith_rs::checks::network::NetworkCheck;
use smith_rs::checks::network_errors::NetworkErrorsCheck;
use smith_rs::checks::ntp::NTPDriftCheck;
use smith_rs::checks::swap::SwapUsageCheck;
use smith_rs::checks::{
    collect_reports, multi_result, threshold_status, CheckResult, CounterOutcome, Reading, Snapshot,
};
use smith_rs::config::{
    AppConfig, AppConfigBrute, RawEmailConfig, RawServiceConfig, RawSettingConfig,
    RawSystemConfig, Threshold,
};
use smith_rs::registry::Registry;

fn service(name: &str) -> RawServiceConfig {
    RawServiceConfig {
        name: name.to_string(),
        register: true,
        use_template: None,
        description: None,
        active: None,
        check_interval: None,
        check_attempts: None,
        check_time_period: None,
        warning: None,
        critical: None,
        disks: None,
        interfaces: None,
        ntp_pool_server: None,
    }
}

fn config(services: Vec<RawServiceConfig>) -> AppConfig {
    AppConfig::resolve(AppConfigBrute {
        setting: RawSettingConfig {
            log_file_path: "l".to_string(),
            pid_file_path: "p".to_string(),
            debug: false,
        },
        system: RawSystemConfig { hostname: "h".to_string() },
        email: RawEmailConfig {
            smtp_server: "s".to_string(),
            smtp_port: 25,
            sender_email: "a@b.c".to_string(),
            smtp_username: None,
            smtp_password: None,
        },
        timeperiods: vec![],
        contacts: vec![],
        services,
    })
    .ok()
    .unwrap()
}

fn reading(name: &str, first: u64, second: u64) -> Reading {
    Reading { name: name.to_string(), first, second }
}

#[test]
fn status_follows_thresholds() {
    assert_eq!(threshold_status(true, true), "CRITICAL");
    assert_eq!(threshold_status(true, false), "CRITICAL");
    assert_eq!(threshold_status(false, true), "WARNING");
    assert_eq!(threshold_status(false, false), "OK");
}

#[test]
fn empty_results_report_nothing() {
    let empty: Registry<(String, String)> = Registry::new();
    assert!(multi_result(empty).is_none());
    let mut one: Registry<(String, String)> = Registry::new();
    one.insert("/".to_string(), ("OK".to_string(), "m".to_string()));
    assert!(matches!(multi_result(one), Some(CheckResult::Multi(_))));
}

#[test]
fn default_thresholds_and_targets() {
    let c = config(vec![]);
    let bits = |t: (Threshold, Threshold)| (f64::from_bits(t.0.bits), f64::from_bits(t.1.bits));
    assert_eq!(bits(DiskUsageCheck.thresholds(&c)), (90.0, 95.0));
    assert_eq!(bits(InodesUsageCheck.thresholds(&c)), (80.0, 90.0));
    assert_eq!(bits(LoadAverageCheck.thresholds(&c)), (16.0, 24.0));
    assert_eq!(bits(SwapUsageCheck.thresholds(&c)), (40.0, 70.0));
    assert_eq!(bits(IopsCheck::new().thresholds(&c)), (2000.0, 5000.0));
    assert_eq!(bits(IoWaitCheck::new().thresholds(&c)), (5.0, 10.0));
    assert_eq!(bits(NetworkCheck::new().thresholds(&c)), (600.0, 900.0));
    assert_eq!(bits(NetworkErrorsCheck::new().thresholds(&c)), (0.05, 1.0));
    assert_eq!(DiskUsageCheck.targets(&c), vec!["/"]);
    assert_eq!(InodesUsageCheck.targets(&c), vec!["/"]);
    assert_eq!(NetworkCheck::new().targets(&c), vec!["en0"]);
    assert_eq!(NetworkErrorsCheck::new().targets(&c), vec!["en0"]);
    assert_eq!(NTPDriftCheck.server(&c), None);
}

#[test]
fn configured_thresholds_and_targets() {
    let mut disk = service("disk");
    disk.disks = Some(vec!["/".to_string(), "/var".to_string()]);
    let mut net = service("network");
    net.interfaces = Some(vec!["eth0".to_string()]);
    let mut ntp = service("ntp");
    ntp.ntp_pool_server = Some("pool.ntp.org".to_string());
    let inodes = service("inodes");
    let c = config(vec![disk, net, ntp, inodes]);
    assert_eq!(DiskUsageCheck.targets(&c), vec!["/", "/var"]);
    assert_eq!(InodesUsageCheck.targets(&c), vec!["/"]);
    assert_eq!(NetworkCheck::new().targets(&c), vec!["eth0"]);
    let t = DiskUsageCheck.thresholds(&c);
    assert_eq!((f64::from_bits(t.0.bits), f64::from_bits(t.1.bits)), (80.0, 90.0));
    assert_eq!(NTPDriftCheck.server(&c), Some("pool.ntp.org".to_string()));
    let mut empty_ntp = service("ntp");
    empty_ntp.ntp_pool_server = Some(String::new());
    assert_eq!(NTPDriftCheck.server(&config(vec![empty_ntp])), None);
}

#[test]
fn check_identities() {
    assert_eq!((DiskUsageCheck.name(), DiskUsageCheck.config_key(), DiskUsageCheck.default_period()), ("Disk Space", "disk", 60));
    assert_eq!((InodesUsageCheck.name(), InodesUsageCheck.config_key(), InodesUsageCheck.default_period()), ("Inode Utilization", "inodes", 60));
    assert_eq!((LoadAverageCheck.name(), LoadAverageCheck.config_key(), LoadAverageCheck.default_period()), ("Load Average", "load", 10));
    assert_eq!((SwapUsageCheck.name(), SwapUsageCheck.config_key(), SwapUsageCheck.default_period()), ("Swap Utilization", "swap", 30));
    assert_eq!((NTPDriftCheck.name(), NTPDriftCheck.config_key(), NTPDriftCheck.default_period()), ("NTP Drift", "ntp", 120));
    let i = IopsCheck::new();
    assert_eq!((i.name(), i.config_key(), i.default_period()), ("Disk IOPS", "iops", 60));
    let w = IoWaitCheck::new();
    assert_eq!((w.name(), w.config_key(), w.default_period()), ("CPU I/O Wait", "iowait", 60));
    let n = NetworkCheck::new();
    assert_eq!((n.name(), n.config_key(), n.default_period()), ("Network Throughput", "network", 10));
    let e = NetworkErrorsCheck::new();
    assert_eq!((e.name(), e.config_key(), e.default_period()), ("Network Errors", "network_errors", 60));
}

#[test]
fn item_error_messages() {
    assert_eq!(DiskUsageCheck::unmounted("/data"), ("ERROR".to_string(), "Could not check /data".to_string()));
    assert_eq!(
        InodesUsageCheck::unreadable("/x"),
        ("ERROR".to_string(), "Failed statvfs execution for path: /x".to_string())
    );
    assert_eq!(NetworkCheck::missing("eth9"), ("ERROR".to_string(), "Interface eth9 not found".to_string()));
    assert_eq!(NetworkErrorsCheck::missing("eth9").1, "Interface eth9 not found");
    assert_eq!(NetworkCheck::baseline().1, "Initializing baseline counters... Throughput will calculate on next loop.");
    assert_eq!(NetworkErrorsCheck::baseline().1, "Initializing baseline counters... Error rate will calculate on next loop.");
    match NTPDriftCheck::failure("timed out") {
        CheckResult::Single { status, message } => {
            assert_eq!(status, "CRITICAL");
            assert_eq!(message, "NTP Error: timed out");
        }
        _ => panic!("single"),
    }
}

fn lines(text: &str) -> Vec<String> {
    text.lines().map(|l| l.to_string()).collect()
}

#[test]
fn meminfo_swap_values() {
    let info = lines("MemTotal: 1000 kB\nSwapTotal:    2048 kB\nSwapFree:     1024 kB\nSwapTotal: 9 kB\n");
    assert_eq!(SwapUsageCheck::meminfo_swap(&info), (Some(2048), Some(1024)));
    let info = lines("SwapTotal: 10 kB\nSwapTotal: 20 kB\n");
    assert_eq!(SwapUsageCheck::meminfo_swap(&info), (Some(20), None));
    let info = lines("SwapFree: x kB\n");
    assert_eq!(SwapUsageCheck::meminfo_swap(&info), (None, None));
}

#[test]
fn swap_usage_cases() {
    assert_eq!(SwapUsageCheck::swap_usage(Some(2048), Some(1024)), Ok(Some((1024, 2048))));
    assert_eq!(SwapUsageCheck::swap_usage(Some(10), Some(20)), Ok(Some((0, 10))));
    assert_eq!(SwapUsageCheck::swap_usage(Some(0), None), Ok(None));
    assert_eq!(SwapUsageCheck::swap_usage(None, None), Ok(None));
    let err = Err("Failed to accurately parse /proc/meminfo swap keys".to_string());
    assert_eq!(SwapUsageCheck::swap_usage(Some(5), None), err);
    assert_eq!(SwapUsageCheck::swap_usage(None, Some(5)), err);
    match SwapUsageCheck::settled_result(&Ok(None)) {
        Some(CheckResult::Single { status, message }) => {
            assert_eq!(status, "OK");
            assert_eq!(message, "Swap space is not active or unallocated on this system");
        }
        _ => panic!("inactive"),
    }
    match SwapUsageCheck::settled_result(&Err("boom".to_string())) {
        Some(CheckResult::Single { status, message }) => {
            assert_eq!(status, "UNKNOWN");
            assert_eq!(message, "boom");
        }
        _ => panic!("error"),
    }
    assert!(SwapUsageCheck::settled_result(&Ok(Some((1, 2)))).is_none());
}

#[test]
fn diskstats_count_whole_disks() {
    let stats = lines(
        "   8       0 sda 100 0 0 0 200 0 0 0 0 0 0\n\
            8       1 sda1 7 0 0 0 9 0 0 0 0 0 0\n\
          259       0 nvme0n1 10 0 0 0 20 0 0 0 0 0 0\n\
          259       1 nvme0n1p1 5 0 0 0 5 0 0 0 0 0 0\n\
            7       0 loop0 50 0 0 0 50 0 0 0 0 0 0\n\
            8      16 sdb x 0 0 0 3 0 0 0 0 0 0\n\
            8      32 sdc 1 0 0\n",
    );
    assert_eq!(IopsCheck::tally_diskstats(&stats, &None), Some((110, 223)));
    let huge = lines("8 0 sda 18446744073709551615 0 0 0 0 0 0 0 0 0 0\n8 16 sdb 1 0 0 0 0 0 0 0 0 0 0\n");
    assert_eq!(IopsCheck::tally_diskstats(&huge, &None), None);
}

#[test]
fn iops_history_yields_rates() {
    let mut c = IopsCheck::new();
    assert!(c.record(100, 200, 1_000) == IopsSample::Baseline);
    assert!(c.record(150, 260, 1_000) == IopsSample::Stalled);
    assert!(c.record(140, 300, 3_000) == IopsSample::Rates { reads: 0, writes: 40, elapsed: 2_000 });
    assert!(c.record(140, 300, 2_000) == IopsSample::Stalled);
}

#[test]
fn cpu_line_parsing() {
    assert!(IoWaitCheck::parse_cpu_line("cpu  10 20 30 40 50 60 70\n") == CpuLine::Ticks { iowait: 50, total: 280 });
    assert!(IoWaitCheck::parse_cpu_line("cpu 1 2 3 4 x") == CpuLine::Ticks { iowait: 0, total: 10 });
    assert!(IoWaitCheck::parse_cpu_line("cpu 1 2 3 4") == CpuLine::TooShort);
    assert!(IoWaitCheck::parse_cpu_line("cpu 18446744073709551615 1 0 0 0") == CpuLine::Overflow);
    let mut c = IoWaitCheck::new();
    assert!(c.record(50, 280) == IoWaitSample::Baseline);
    assert!(c.record(60, 380) == IoWaitSample::Delta { iowait_ticks: 10, total_ticks: 100 });
    assert!(c.record(70, 380) == IoWaitSample::Stalled);
    assert!(c.record(0, 10) == IoWaitSample::Stalled);
}

#[test]
fn network_sweep_outcomes() {
    let mut c: Registry<Snapshot> = Registry::new();
    let targets = vec!["eth0".to_string(), "wlan9".to_string()];
    let first = vec![reading("lo", 1, 1), reading("eth0", 1000, 500)];
    let out = NetworkCheck::observe(&mut c, &first, &targets, 10);
    assert!(out == vec![CounterOutcome::Baseline, CounterOutcome::Missing]);
    let second = vec![reading("eth0", 1500, 400)];
    let out = NetworkCheck::observe(&mut c, &second, &targets, 2_000_000_010);
    assert!(out == vec![CounterOutcome::Delta { first: 500, second: 0, elapsed: 2_000_000_000 }, CounterOutcome::Missing]);
    let twice = vec!["eth0".to_string(), "eth0".to_string()];
    let out = NetworkCheck::observe(&mut c, &second, &twice, 3_000_000_010);
    assert!(out == vec![CounterOutcome::Delta { first: 0, second: 0, elapsed: 1_000_000_000 }, CounterOutcome::Stalled]);
}

#[test]
fn network_error_totals() {
    let mut c: Registry<Snapshot> = Registry::new();
    let targets = vec!["eth0".to_string()];
    let out = NetworkErrorsCheck::observe(&mut c, &vec![reading("eth0", 2, 3)], &targets, 5);
    assert!(out == vec![CounterOutcome::Baseline]);
    let out = NetworkErrorsCheck::observe(&mut c, &vec![reading("eth0", 4, 4), reading("other", u64::MAX, 1)], &targets, 10);
    assert!(out == vec![CounterOutcome::Delta { first: 3, second: 0, elapsed: 5 }]);
}

#[test]
fn baseline_results() {
    match IopsCheck::baseline_result() {
        CheckResult::Single { status, message } => {
            assert_eq!(status, "OK");
            assert_eq!(message, "Initializing IOPS baseline counters... Calculating rates on next loop iteration.");
        }
        _ => panic!(),
    }
    match IoWaitCheck::baseline_result() {
        CheckResult::Single { message, .. } => assert_eq!(
            message,
            "Initializing CPU I/O Wait baseline counters... Calculating rates on next loop iteration."
        ),
        _ => panic!(),
    }
}

#[test]
fn diskstats_count_configured_disks() {
    let stats = lines(
        "253 0 vda 40 0 0 0 60 0 0 0 0 0 0\n\
         253 1 vda1 7 0 0 0 9 0 0 0 0 0 0\n\
         8 0 sda 100 0 0 0 200 0 0 0 0 0 0\n",
    );
    let vda = Some(vec!["vda".to_string()]);
    assert_eq!(IopsCheck::tally_diskstats(&stats, &vda), Some((40, 60)));
    let both = Some(vec!["vda".to_string(), "sda".to_string()]);
    assert_eq!(IopsCheck::tally_diskstats(&stats, &both), Some((140, 260)));
    assert_eq!(IopsCheck::tally_diskstats(&stats, &Some(vec![])), Some((0, 0)));
}

#[test]
fn network_history_is_kept_apart_from_the_check() {
    let mut shared: Registry<Snapshot> = Registry::new();
    let targets = vec!["eth0".to_string()];
    let out = NetworkCheck::observe(&mut shared, &vec![reading("eth0", 10, 10)], &targets, 1);
    assert!(out == vec![CounterOutcome::Baseline]);
    let _another = NetworkCheck::new();
    let out = NetworkCheck::observe(&mut shared, &vec![reading("eth0", 30, 10)], &targets, 11);
    assert!(out == vec![CounterOutcome::Delta { first: 20, second: 0, elapsed: 10 }]);
}

#[test]
fn per_item_reports_are_collected() {
    let targets = vec!["eth0".to_string(), "wlan9".to_string(), "lo".to_string()];
    let reports = vec![
        NetworkCheck::report("eth0", &CounterOutcome::Baseline, None),
        NetworkCheck::report("wlan9", &CounterOutcome::Missing, None),
        NetworkCheck::report("lo", &CounterOutcome::Stalled, None),
    ];
    match collect_reports(&targets, reports) {
        Some(CheckResult::Multi(found)) => {
            assert_eq!(found.len(), 2);
            assert_eq!(found.get("wlan9").unwrap().1, "Interface wlan9 not found");
            assert_eq!(found.get("eth0").unwrap().0, "OK");
            assert!(found.get("lo").is_none());
        }
        _ => panic!("expected per-item results"),
    }
    let rate = Some(("WARNING".to_string(), "Total: 700.00 Mbps".to_string()));
    let delta = CounterOutcome::Delta { first: 1, second: 1, elapsed: 1 };
    assert_eq!(NetworkCheck::report("eth0", &delta, rate.clone()), rate);
    assert!(collect_reports(&vec!["lo".to_string()], vec![None]).is_none());
    assert_eq!(
        DiskUsageCheck::report("/srv", None),
        Some(("ERROR".to_string(), "Could not check /srv".to_string()))
    );
    assert_eq!(DiskUsageCheck::report("/", Some(None)), None);
    assert_eq!(
        InodesUsageCheck::report("/x", None),
        Some(("ERROR".to_string(), "Failed statvfs execution for path: /x".to_string()))
    );
}

#[test]
fn samples_become_results() {
    let rate = Some(("WARNING".to_string(), "Total IOPS: 1200.0".to_string()));
    assert!(IopsCheck::sample_result(&IopsSample::Stalled, None).is_none());
    match IopsCheck::sample_result(&IopsSample::Rates { reads: 1, writes: 1, elapsed: 1 }, rate) {
        Some(CheckResult::Single { status, message }) => {
            assert_eq!(status, "WARNING");
            assert_eq!(message, "Total IOPS: 1200.0");
        }
        _ => panic!(),
    }
    match IoWaitCheck::sample_result(&IoWaitSample::Baseline, None) {
        Some(CheckResult::Single { status, .. }) => assert_eq!(status, "OK"),
        _ => panic!(),
    }
    assert!(IoWaitCheck::sample_result(&IoWaitSample::Stalled, None).is_none());
}
