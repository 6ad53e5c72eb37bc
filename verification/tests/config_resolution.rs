use smith_rs::config::{
    default_register, AppConfig, AppConfigBrute, ObjectKind, RawContactConfig, RawEmailConfig,
    RawServiceConfig, RawSettingConfig, RawSystemConfig, RawTimePeriodConfig, Threshold,
};

fn s(x: &str) -> Option<String> {
    Some(x.to_string())
}

fn period(name: &str, register: bool, template: Option<String>, monday: Option<String>) -> RawTimePeriodConfig {
    RawTimePeriodConfig {
        name: name.to_string(),
        register,
        use_template: template,
        alias: None,
        sunday: None,
        monday,
        tuesday: None,
        wednesday: None,
        thursday: None,
        friday: None,
        saturday: None,
    }
}

fn contact(name: &str, register: bool, template: Option<String>, email: Option<String>) -> RawContactConfig {
    RawContactConfig {
        name: name.to_string(),
        register,
        use_template: template,
        alias: None,
        email,
        notification_period: None,
        notification_options: None,
    }
}

fn service(name: &str, register: bool, template: Option<String>) -> RawServiceConfig {
    RawServiceConfig {
        name: name.to_string(),
        register,
        use_template: template,
        description: None,
        active: None,
        check_interval: None,
        check_attempts: None,
        check_time_period: None,
        warning: None,
        critical: None,
        disks: None,
        interfaces: None,
        ntp_pool_server: None,
    }
}

fn brute(
    timeperiods: Vec<RawTimePeriodConfig>,
    contacts: Vec<RawContactConfig>,
    services: Vec<RawServiceConfig>,
) -> AppConfigBrute {
    AppConfigBrute {
        setting: RawSettingConfig {
            log_file_path: "smith-agent.log".to_string(),
            pid_file_path: "smith-agent.pid".to_string(),
            debug: false,
        },
        system: RawSystemConfig { hostname: "localhost".to_string() },
        email: RawEmailConfig {
            smtp_server: "smtp.example.com".to_string(),
            smtp_port: 587,
            sender_email: "agent@example.com".to_string(),
            smtp_username: None,
            smtp_password: None,
        },
        timeperiods,
        contacts,
        services,
    }
}

#[test]
fn register_defaults_to_true() {
    assert!(default_register());
}

#[test]
fn timeperiod_inherits_day_windows_from_template() {
    let mut base = period("base_24x7", false, None, s("00:00-24:00"));
    base.alias = s("Standard Always-On 24x7 Frame");
    base.sunday = s("01:00-02:00");
    let mut inst = period("24x7", true, s("base_24x7"), None);
    inst.alias = s("Production standard non-stop");
    let work = period("work_hours", true, None, s("09:00-17:00"));
    let c = AppConfig::resolve(brute(vec![base, inst, work], vec![], vec![])).ok().unwrap();
    assert_eq!(c.timeperiods.len(), 2);
    assert!(c.timeperiods.get("base_24x7").is_none());
    let p = c.timeperiods.get("24x7").unwrap();
    assert_eq!(p.alias, "Production standard non-stop");
    assert_eq!(p.sunday, "01:00-02:00");
    assert_eq!(p.monday, "00:00-24:00");
    assert_eq!(p.saturday, "00:00-24:00");
    let w = c.timeperiods.get("work_hours").unwrap();
    assert_eq!(w.monday, "09:00-17:00");
    assert_eq!(w.tuesday, "00:00-24:00");
    assert_eq!(w.alias, "");
    assert!(w.is_active_now(1, 9 * 60));
    assert!(w.is_active_now(1, 17 * 60 - 1));
    assert!(!w.is_active_now(1, 17 * 60));
    assert!(!w.is_active_now(1, 8 * 60 + 59));
    assert!(w.is_active_now(2, 0));
    assert!(w.is_active_now(2, 24 * 60 - 1));
    assert!(!w.is_active_now(7, 600));
}

#[test]
fn contact_defaults_and_override() {
    let mut generic = contact("generic_admin", false, None, None);
    generic.notification_period = s("24x7");
    generic.notification_options = Some(vec!["w".to_string(), "c".to_string(), "r".to_string()]);
    let mut oncall = contact("oncall_team", true, s("generic_admin"), s("oncall@example.com"));
    oncall.notification_period = s("work_hours");
    let bare = contact("bare", true, None, None);
    let c = AppConfig::resolve(brute(vec![], vec![generic, oncall, bare], vec![])).ok().unwrap();
    let o = c.contacts.get("oncall_team").unwrap();
    assert_eq!(o.email, "oncall@example.com");
    assert_eq!(o.notification_period, "work_hours");
    assert_eq!(o.notification_options, vec!["w", "c", "r"]);
    let b = c.contacts.get("bare").unwrap();
    assert_eq!(b.email, "root@localhost");
    assert_eq!(b.notification_period, "24x7");
    assert!(b.notification_options.is_empty());
    assert_eq!(c.get_contact_emails(), vec!["oncall@example.com", "root@localhost"]);
}

#[test]
fn service_defaults_and_template_overrides() {
    let mut generic = service("generic_service", false, None);
    generic.active = Some(true);
    generic.check_interval = Some(15);
    generic.check_attempts = Some(3);
    generic.check_time_period = s("24x7");
    generic.warning = Some(Threshold { bits: 80.0f64.to_bits() });
    generic.critical = Some(Threshold { bits: 90.0f64.to_bits() });
    let mut load = service("load", true, s("generic_service"));
    load.description = s("Load Average");
    load.check_interval = Some(10);
    load.warning = Some(Threshold { bits: 16.0f64.to_bits() });
    let mut disk = service("disk", true, None);
    disk.disks = Some(vec!["/".to_string(), "/var".to_string()]);
    let c = AppConfig::resolve(brute(vec![], vec![], vec![generic, load, disk])).ok().unwrap();
    let l = c.services.get("load").unwrap();
    assert_eq!(l.description, "Load Average");
    assert!(l.active);
    assert_eq!(l.check_interval, 10);
    assert_eq!(l.check_attempts, 3);
    assert_eq!(l.check_time_period, "24x7");
    assert_eq!(f64::from_bits(l.warning.bits), 16.0);
    assert_eq!(f64::from_bits(l.critical.bits), 90.0);
    let d = c.services.get("disk").unwrap();
    assert_eq!(d.description, "disk");
    assert!(d.active);
    assert_eq!(d.check_interval, 60);
    assert_eq!(d.check_attempts, 3);
    assert_eq!(f64::from_bits(d.warning.bits), 80.0);
    assert_eq!(f64::from_bits(d.critical.bits), 90.0);
    assert_eq!(d.disks, Some(vec!["/".to_string(), "/var".to_string()]));
    assert_eq!(d.interfaces, None);
    assert_eq!(c.get_description("load"), "Load Average");
    assert_eq!(c.get_description("tcp_states"), "tcp_states");
}

#[test]
fn later_entries_replace_earlier_ones() {
    let mut t1 = service("tpl", false, None);
    t1.check_interval = Some(1);
    let mut t2 = service("tpl", false, None);
    t2.check_interval = Some(2);
    let mut a = service("svc", true, s("tpl"));
    a.description = s("first");
    let mut b = service("svc", true, None);
    b.description = s("second");
    let c = AppConfig::resolve(brute(vec![], vec![], vec![t1, a, t2, b])).ok().unwrap();
    assert_eq!(c.services.len(), 1);
    assert_eq!(c.services.get("svc").unwrap().description, "second");
}

#[test]
fn last_template_of_a_name_is_used() {
    let mut t1 = service("tpl", false, None);
    t1.check_interval = Some(1);
    let mut t2 = service("tpl", false, None);
    t2.check_interval = Some(2);
    let a = service("svc", true, s("tpl"));
    let c = AppConfig::resolve(brute(vec![], vec![], vec![t1, a, t2])).ok().unwrap();
    assert_eq!(c.services.get("svc").unwrap().check_interval, 2);
}

#[test]
fn missing_templates_are_reported_in_phase_order() {
    let bad_period = period("p", true, s("nope"), None);
    let bad_contact = contact("c", true, s("ghost"), None);
    let bad_service = service("svc", true, s("absent"));
    let e = AppConfig::resolve(brute(vec![bad_period], vec![bad_contact], vec![bad_service]))
        .err()
        .unwrap();
    assert!(e.kind == ObjectKind::Timeperiod);
    assert_eq!(e.template, "nope");
    assert_eq!(e.entry, "p");
    let e = AppConfig::resolve(brute(
        vec![],
        vec![contact("c", true, s("ghost"), None)],
        vec![service("svc", true, s("absent"))],
    ))
    .err()
    .unwrap();
    assert!(e.kind == ObjectKind::Contact);
    assert_eq!(e.template, "ghost");
    let e = AppConfig::resolve(brute(
        vec![],
        vec![],
        vec![service("a", true, s("x")), service("b", true, s("y"))],
    ))
    .err()
    .unwrap();
    assert!(e.kind == ObjectKind::Service);
    assert_eq!(e.template, "x");
    assert_eq!(e.entry, "a");
}

#[test]
fn template_of_an_unregistered_entry_is_not_needed() {
    let tpl = service("tpl", false, s("does_not_exist"));
    let c = AppConfig::resolve(brute(vec![], vec![], vec![tpl])).ok().unwrap();
    assert_eq!(c.services.len(), 0);
}

#[test]
fn settings_are_carried_over() {
    let c = AppConfig::resolve(brute(vec![], vec![], vec![])).ok().unwrap();
    assert_eq!(c.setting.log_file_path, "smith-agent.log");
    assert_eq!(c.system.hostname, "localhost");
    assert_eq!(c.email.smtp_port, 587);
    assert!(c.get_contact_emails().is_empty());
}
