use composer::certificate_monitor::{
    self, certificate_expiry, certificate_line_text, check_certificate, config_path,
    default_warn_threshold_days, expiry_instant, format_status_for_stdout, CertificateMonitor,
    CertificateMonitorStatus, CertificateState, CertificateStatus,
};
use composer::compose::ComposeContext;
use composer::container_monitor::{self, is_reported_running, ServiceState, StatusBoard};
use composer::slack::sanitize_url;
use composer::system_monitor::{
    self, disk_size_threshold, DiskReading, Level, Reading, SystemMonitor, SystemMonitorStatus,
};
use composer::time::Timestamp;

fn t(seconds: i64) -> Timestamp {
    Timestamp::new(seconds, 0).unwrap()
}

fn state(service: &str, state: &str) -> ServiceState {
    ServiceState { service: service.to_string(), state: state.to_string() }
}

const DATE: &str = "> <!date^1700000000^Run at {date_num} {time_secs}|Run at 2023-11-14 22:13:20 UTC>";

// --- containers ---------------------------------------------------------

#[test]
fn last_report_of_a_service_counts() {
    let rows = vec![state("a", "running"), state("b", "exited"), state("a", "exited")];
    assert!(!is_reported_running(&rows, "a"));
    assert!(!is_reported_running(&rows, "c"));
    assert!(is_reported_running(&vec![state("a", "running")], "a"));
}

#[test]
fn first_look_is_told() {
    let services = vec!["a".to_string(), "b".to_string()];
    let mut board = StatusBoard::new();
    assert!(board.observe(&services, &vec![state("a", "running")], t(1_700_000_000)));
    let url = Some("u".to_string());
    let messages = container_monitor::messages("host", &t(1_700_000_000), &board, &url, &None);
    assert_eq!(messages.len(), 1);
    assert_eq!(messages[0].url, "u");
    assert_eq!(
        messages[0].text,
        format!("> 💿 *container monitor* for host\n> \n{DATE}\n> \n> 🟩 a\n> 🟥 b")
    );
    // no change, no news
    assert!(!board.observe(&services, &vec![state("a", "running")], t(1_700_000_060)));
}

#[test]
fn short_absence_is_not_told() {
    let services = vec!["a".to_string()];
    let up = vec![state("a", "running")];
    let mut board = StatusBoard::new();
    board.observe(&services, &up, t(1_000));
    // missed within the time of grace
    assert!(!board.observe(&services, &vec![], t(1_029)));
    // and back again, which is news
    assert!(board.observe(&services, &up, t(1_030)));
    // missed after the time of grace
    assert!(board.observe(&services, &vec![], t(1_060)));
    assert!(!board.observe(&services, &vec![], t(1_120)));
}

#[test]
fn checks_tell_of_some_service() {
    let services = vec!["a".to_string(), "b".to_string(), "a".to_string()];
    let (url, on_error) = (Some("u".to_string()), Some("e".to_string()));
    let mut board = StatusBoard::new();
    let mut check = |rows: Vec<ServiceState>, at: i64| {
        let sent = board.check("host", &services, &rows, t(at), &url, &on_error);
        sent.iter().map(|m| m.url.clone()).collect::<Vec<_>>()
    };
    let both = || vec![state("a", "running"), state("b", "running")];
    // the first check is told, to each webhook once
    assert_eq!(check(vec![], 1_000), ["u", "e"]);
    assert!(check(vec![], 1_060).is_empty());
    // one that is listed twice and runs now is told
    assert_eq!(check(vec![state("a", "running")], 1_120), ["u", "e"]);
    assert_eq!(check(both(), 1_180), ["u", "e"]);
    // away for less than the time of grace
    assert!(check(vec![state("b", "running")], 1_200).is_empty());
    assert!(check(vec![state("b", "running")], 1_260).is_empty());
    // away for the time of grace
    assert_eq!(check(vec![], 1_290), ["u", "e"]);
    // a service that was never seen to run is told when it is first looked at
    let mut other = StatusBoard::new();
    let _ = other.check("host", &vec![], &vec![], t(0), &url, &None);
    assert_eq!(other.check("host", &services, &vec![], t(60), &url, &None).len(), 1);
    assert!(other.check("host", &services, &vec![], t(120), &url, &None).is_empty());
}

#[test]
fn running_containers_are_listed() {
    let context = ComposeContext {
        compose_file: "c.yml".to_string(),
        env_file: Some(".env".to_string()),
        project_directory: None,
        hostname: "h".to_string(),
    };
    assert_eq!(
        container_monitor::ps_command(&context).args,
        vec!["compose", "-f", "c.yml", "--env-file", ".env", "ps", "--format", "json"]
    );
}

// --- certificates -------------------------------------------------------

fn cert(url: &str, state: CertificateState, days: Option<i64>) -> CertificateStatus {
    CertificateStatus { url: url.to_string(), state, days_until_expiry: days, error: None }
}

fn status(certificates: Vec<CertificateStatus>) -> CertificateMonitorStatus {
    CertificateMonitorStatus { certificates }
}

#[test]
fn certificates_are_classified() {
    let day = 86_400;
    let check = |left: i64| check_certificate("u", 15, Ok(t(left + 1_000)), &t(1_000));
    assert_eq!(check(16 * day).state, CertificateState::Valid);
    assert_eq!(check(16 * day).days_until_expiry, Some(16));
    assert_eq!(check(16 * day - 1).state, CertificateState::Warning);
    assert_eq!(check(0).state, CertificateState::Warning);
    // less than a day past its expiry is day zero, and expired all the same
    assert_eq!(check(-1).state, CertificateState::Expired);
    assert_eq!(check(-1).days_until_expiry, Some(0));
    assert_eq!(check(1 - day).days_until_expiry, Some(0));
    assert_eq!(check(1 - day).state, CertificateState::Expired);
    assert_eq!(check(-day).state, CertificateState::Expired);
    assert_eq!(check(-day).days_until_expiry, Some(-1));
    let failed = check_certificate("u", 15, Err("no".to_string()), &t(0));
    assert_eq!(failed.state, CertificateState::Error);
    assert_eq!(failed.days_until_expiry, None);
    assert_eq!(failed.error.as_deref(), Some("no"));
    assert_eq!(default_warn_threshold_days(), 15);
    assert_eq!(CertificateState::default(), CertificateState::Valid);
}

#[test]
fn certificate_is_expired_on_the_day_of_its_expiry() {
    let at = |s: &str| Timestamp::parse_rfc3339(s).unwrap();
    let expiry = at("2026-01-01T00:00:00Z");
    let found = check_certificate("u", 15, Ok(expiry), &at("2026-01-01T12:00:00Z"));
    assert_eq!(found.state, CertificateState::Expired);
    assert_eq!(found.days_until_expiry, Some(0));
    assert_eq!(found.error, None);
    assert_eq!(certificate_line_text(&found), "❌ u: Expired 0 days ago");
    // to the nanosecond
    let just = Timestamp::new(expiry.seconds(), 1).unwrap();
    assert_eq!(check_certificate("u", 0, Ok(expiry), &just).state, CertificateState::Expired);
    assert_eq!(check_certificate("u", 0, Ok(expiry), &expiry).state, CertificateState::Warning);
}

/// A self-signed certificate that is valid until 2033-05-18T03:33:20Z, by hand
/// in DER form.
fn der() -> Vec<u8> {
    fn tlv(tag: u8, body: &[u8]) -> Vec<u8> {
        let mut v = vec![tag];
        if body.len() < 128 {
            v.push(body.len() as u8);
        } else if body.len() < 256 {
            v.push(0x81);
            v.push(body.len() as u8);
        } else {
            v.push(0x82);
            v.push((body.len() >> 8) as u8);
            v.push(body.len() as u8);
        }
        v.extend_from_slice(body);
        v
    }
    let algorithm = tlv(0x30, &[tlv(0x06, &[0x2a, 0x86, 0x48, 0x86, 0xf7, 0x0d, 0x01, 0x01, 0x0b]), tlv(0x05, &[])].concat());
    let key_algorithm = tlv(0x30, &[tlv(0x06, &[0x2a, 0x86, 0x48, 0x86, 0xf7, 0x0d, 0x01, 0x01, 0x01]), tlv(0x05, &[])].concat());
    let name = tlv(
        0x30,
        &tlv(0x31, &tlv(0x30, &[tlv(0x06, &[0x55, 0x04, 0x03]), tlv(0x0c, b"test")].concat())),
    );
    let validity = tlv(0x30, &[tlv(0x17, b"230101000000Z"), tlv(0x17, b"330518033320Z")].concat());
    let key = tlv(0x30, &[key_algorithm, tlv(0x03, &[0, 1, 2, 3])].concat());
    let version = tlv(0xa0, &tlv(0x02, &[2]));
    let tbs = tlv(
        0x30,
        &[version, tlv(0x02, &[1]), algorithm.clone(), name.clone(), validity, name, key].concat(),
    );
    tlv(0x30, &[tbs, algorithm, tlv(0x03, &[0, 9, 9])].concat())
}

#[test]
fn expiry_is_read_from_certificates() {
    assert_eq!(certificate_expiry(&der()), Ok(t(2_000_000_000)));
    assert_eq!(certificate_expiry(b"junk"), Err("failed to parse certificate".to_string()));
    assert_eq!(
        expiry_instant(Some(i64::MAX)),
        Err("invalid certificate expiry date".to_string())
    );
    assert_eq!(expiry_instant(Some(7)), Ok(t(7)));
}

#[test]
fn certificate_status_is_formatted() {
    let mut bad = cert("d", CertificateState::Error, None);
    assert_eq!(certificate_line_text(&bad), "🚨 d: Error - Unknown error");
    bad.error = Some("boom".to_string());
    let all = status(vec![
        cert("a", CertificateState::Valid, Some(90)),
        cert("b", CertificateState::Warning, Some(3)),
        cert("c", CertificateState::Expired, Some(-2)),
        bad,
    ]);
    assert_eq!(
        format_status_for_stdout("host", &t(1_700_000_000), &all),
        "🔴 Certificate monitor for host\n\nRun at 2023-11-14 22:13:20 UTC\n\n\
         ✅ a: 90 days until expiry\n⚠️ b: 3 days until expiry\n\
         ❌ c: Expired 2 days ago\n🚨 d: Error - boom"
    );
    let ok = status(vec![cert("a", CertificateState::Valid, None)]);
    let on_error = Some("e".to_string());
    let messages =
        certificate_monitor::messages("host", &t(1_700_000_000), &ok, &None, &on_error);
    assert_eq!(messages.len(), 1);
    assert_eq!(
        messages[0].text,
        format!("> 🟢 *certificate monitor* for host\n> \n{DATE}\n> \n> 🛫 All certificates valid\n> ✅ a: Valid")
    );
    let warned = status(vec![cert("a", CertificateState::Warning, None)]);
    assert!(format_status_for_stdout("h", &t(0), &warned).starts_with("🟡"));
    assert_eq!(certificate_line_text(&warned.certificates[0]), "⚠️ a: Expiring soon");
    assert_eq!(
        certificate_line_text(&cert("a", CertificateState::Expired, None)),
        "❌ a: Expired"
    );
}

#[test]
fn certificate_changes_are_told() {
    let a = || cert("a", CertificateState::Valid, Some(90));
    let mut monitor = CertificateMonitor::new();
    assert!(monitor.observe(status(vec![a()])));
    // other days are no change
    assert!(!monitor.observe(status(vec![cert("a", CertificateState::Valid, Some(89))])));
    assert!(monitor.observe(status(vec![cert("a", CertificateState::Warning, Some(9))])));
    assert!(monitor.observe(status(vec![])));
    // nothing to watch is told once
    let mut monitor = CertificateMonitor::new();
    assert!(monitor.observe(status(vec![])));
    assert!(!monitor.observe(status(vec![])));
    let one = status(vec![a()]);
    assert!(one.is_ok());
    assert!(!one.is_qualitatively_different(&one));
    let other = status(vec![cert("b", CertificateState::Valid, Some(90))]);
    assert!(one.is_qualitatively_different(&other) && other.is_qualitatively_different(&one));
}

#[test]
fn certificate_config_is_chosen() {
    let some = |s: &str| Some(s.to_string());
    assert_eq!(config_path(some("a"), some("b")), Ok("a".to_string()));
    assert_eq!(config_path(None, some("b")), Ok("b".to_string()));
    assert!(config_path(None, None)
        .unwrap_err()
        .starts_with("No certificate monitor configuration provided."));
}

// --- system -------------------------------------------------------------

fn reading(level: Option<Level>, percent: &str) -> Reading {
    Reading { level, percent: percent.to_string() }
}

fn disk(mount: &str, total_bytes: u64, level: Option<Level>) -> DiskReading {
    DiskReading {
        mount: mount.to_string(),
        total_bytes,
        usage: reading(level, "91.00"),
        gigabytes: "2.00".to_string(),
    }
}

fn fine() -> Reading {
    reading(Some(Level::Low), "1.00")
}

#[test]
fn system_status_is_told() {
    let mut monitor = SystemMonitor::new();
    assert!(monitor.observe(fine(), fine(), vec![], None));
    assert_eq!(
        system_monitor::notice_text("host", &t(1_700_000_000), &monitor.status),
        format!("> 🟢 *system monitor* for host\n> \n{DATE}\n> \n> 🛫 System metrics nominal")
    );
    assert!(!monitor.observe(fine(), fine(), vec![], None));
    let high = || reading(Some(Level::High), "81.25");
    assert!(monitor.observe(high(), fine(), vec![disk("/", 4, Some(Level::High))], None));
    let url = Some("u".to_string());
    let messages =
        system_monitor::messages("host", &t(1_700_000_000), &monitor.status, &url, &url);
    assert_eq!(messages.len(), 2);
    assert_eq!(
        messages[1].text,
        format!("> 🟡 *system monitor* for host\n> \n{DATE}\n> \n> ❗ Memory usage: 81.25%\n> ❗ Disk usage: 91.00% of 2.00 GiB (/)")
    );
    // other numbers are no change
    let higher = reading(Some(Level::High), "90.00");
    assert!(!monitor.observe(higher, fine(), vec![disk("/", 4, Some(Level::High))], None));
    assert_eq!(monitor.status.memory_warning.as_deref(), Some("90.00"));
    // another disk is
    assert!(monitor.observe(high(), fine(), vec![disk("/b", 4, Some(Level::High))], None));
    assert!(!monitor.status.is_ok());
}

#[test]
fn warnings_stay_until_usage_is_low() {
    let between = || reading(Some(Level::Between), "70.00");
    let mut monitor = SystemMonitor::new();
    monitor.observe(between(), between(), vec![disk("/", 1, Some(Level::Between))], None);
    assert!(monitor.status.is_ok());
    let high = reading(Some(Level::High), "81.00");
    monitor.observe(fine(), high, vec![disk("/", 1, Some(Level::High))], None);
    assert!(!monitor.observe(fine(), between(), vec![disk("/", 1, Some(Level::Between))], None));
    assert_eq!(monitor.status.swap_warning.as_deref(), Some("81.00"));
    assert!(monitor.status.disk_warnings.get("/").is_some());
    assert!(monitor.observe(fine(), between(), vec![disk("/", 1, Some(Level::Low))], None));
    assert!(monitor.status.disk_warnings.get("/").is_none());
    // without limits there is no warning
    assert!(monitor.observe(fine(), reading(None, "99.00"), vec![], None));
    assert!(monitor.status.is_ok());
}

#[test]
fn small_disks_are_not_looked_at() {
    let status = SystemMonitorStatus::new();
    let disks = vec![
        disk("/none", 0, Some(Level::High)),
        disk("/small", 9, Some(Level::High)),
        disk("/large", 10, Some(Level::High)),
    ];
    let next = status.next(fine(), fine(), disks, Some(10));
    assert_eq!(next.disk_warnings.len(), 1);
    assert_eq!(next.disk_warnings.key(0), "/large");
    assert!(next.is_qualitatively_different(&status));
    assert!(!next.is_qualitatively_different(&next));
}

#[test]
fn disk_sizes_are_read() {
    assert_eq!(disk_size_threshold(None), Ok(None));
    assert_eq!(disk_size_threshold(Some("1 KiB")), Ok(Some(1024)));
    assert_eq!(disk_size_threshold(Some("2GB")), Ok(Some(2_000_000_000)));
    assert_eq!(disk_size_threshold(Some("huge")), Err("invalid disk size threshold".to_string()));
}

#[test]
fn blank_webhooks_are_ignored() {
    assert_eq!(sanitize_url(" \t".to_string()), None);
    assert_eq!(sanitize_url(" x ".to_string()), Some(" x ".to_string()));
}
