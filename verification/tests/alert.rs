use smith_rs::alert::AlertSystem;
use smith_rs::config::{AppConfig, AppConfigBrute, RawEmailConfig, RawSettingConfig, RawSystemConfig};

fn config(sender: &str, server: &str, user: Option<&str>, pass: Option<&str>) -> AppConfig {
    AppConfig::resolve(AppConfigBrute {
        setting: RawSettingConfig {
            log_file_path: "l".to_string(),
            pid_file_path: "p".to_string(),
            debug: false,
        },
        system: RawSystemConfig { hostname: "matrix-01".to_string() },
        email: RawEmailConfig {
            smtp_server: server.to_string(),
            smtp_port: 587,
            sender_email: sender.to_string(),
            smtp_username: user.map(|u| u.to_string()),
            smtp_password: pass.map(|p| p.to_string()),
        },
        timeperiods: vec![],
        contacts: vec![],
        services: vec![],
    })
    .ok()
    .unwrap()
}

#[test]
fn hard_alert_subject_and_body() {
    let a = AlertSystem::new(&config("agent@example.com", "smtp.example.com", None, None));
    let m = a.nagios_hard_alert("disk_/", "oncall@example.com", "CRITICAL", "Used: 96.00%");
    assert_eq!(m.to, "oncall@example.com");
    assert_eq!(m.subject, "** HARD ALERT ** - disk_/ is CRITICAL");
    assert_eq!(
        m.body,
        "Notification Type: HARD ALERT\nService: disk_/\nState: CRITICAL\nHost: matrix-01\n\nInfo:\nUsed: 96.00%"
    );
}

#[test]
fn credentials_need_both_parts() {
    let a = AlertSystem::new(&config("a@b.c", "smtp.example.com", Some("u"), Some("p")));
    assert_eq!(a.smtp_credentials(), Some(("u".to_string(), "p".to_string())));
    let a = AlertSystem::new(&config("a@b.c", "smtp.example.com", Some("u"), None));
    assert_eq!(a.smtp_credentials(), None);
    assert_eq!(a.email.smtp_port, 587);
    assert_eq!(a.hostname, "matrix-01");
}

#[test]
fn invalid_sender_is_reported_first() {
    let a = AlertSystem::new(&config("not an address", "smtp.example.com", None, None));
    let e = a.prepare_email("also bad", "s", "b").err().unwrap();
    assert!(e.starts_with("Invalid sender: "), "{}", e);
}

#[test]
fn invalid_receiver_is_reported() {
    let a = AlertSystem::new(&config("agent@example.com", "smtp.example.com", None, None));
    let e = a.prepare_email("Disk Space (/)", "s", "b").err().unwrap();
    assert!(e.starts_with("Invalid receiver: "), "{}", e);
}

#[test]
fn valid_addresses_prepare_a_delivery() {
    let a = AlertSystem::new(&config("agent@example.com", "smtp.example.com", Some("u"), Some("p")));
    assert!(a.prepare_email("oncall@example.com", "subject", "body").is_ok());
}

#[test]
fn plan_carries_every_part_of_the_delivery() {
    let a = AlertSystem::new(&config("agent@example.com", "smtp.example.com", Some("u"), Some("p")));
    let plan = a.mail_plan("oncall@example.com", "subject", "body");
    assert_eq!(plan.from, "agent@example.com");
    assert_eq!(plan.to, "oncall@example.com");
    assert_eq!(plan.subject, "subject");
    assert_eq!(plan.body, "body");
    assert_eq!(plan.relay, "smtp.example.com");
    assert_eq!(plan.port, 587);
    assert_eq!(plan.login, Some(("u".to_string(), "p".to_string())));
    let d = a.prepare_email("oncall@example.com", "subject", "body").ok().unwrap();
    assert_eq!(d.plan.to, "oncall@example.com");
    assert_eq!(d.plan.port, 587);
}
