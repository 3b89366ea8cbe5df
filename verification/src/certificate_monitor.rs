//! Watching when the certificates of web sites expire, and telling of changes.

use vstd::prelude::*;
use vstd::string::*;
use crate::slack::{
    broadcast_messages, date_line, date_text, messages_of, quotation, quote, to_webhooks, Message,
};
use crate::text::{
    decimal, holds, join, joined, lemma_holds, lemma_joined_holds, same, text_opt, texts,
    to_decimal, to_decimal_negated,
};
use crate::time::{
    elapsed, ordinary, utc_text, valid_instant, whole_days, whole_seconds, Instant, Timestamp,
};

verus! {

/// Which certificates are watched.
#[derive(Debug)]
pub struct CertificateMonitorConfig {
    pub urls: Vec<String>,
    /// The days before its expiry from which on a certificate is warned of
    pub warn_threshold_days: u32,
}

/// The days from which on a certificate is warned of, unless configured.
pub fn default_warn_threshold_days() -> (r: u32)
    ensures
        r == 15,
{
    15
}

/// The path of the configuration: the one that was asked for, else that of the
/// monitor.
pub fn config_path(config: Option<String>, monitor: Option<String>) -> (r: Result<String, String>)
    ensures
        match (config, monitor) {
            (Some(path), _) => r == Ok::<String, String>(path),
            (None, Some(path)) => r == Ok::<String, String>(path),
            (None, None) => r matches Err(e) && e@
                == "No certificate monitor configuration provided. Use --config, --certificate-monitor, or CERTIFICATE_MONITOR env var"@,
        },
{
    match (config, monitor) {
        (Some(path), _) => Ok(path),
        (None, Some(path)) => Ok(path),
        (None, None) => Err(
            "No certificate monitor configuration provided. Use --config, --certificate-monitor, or CERTIFICATE_MONITOR env var".to_owned(),
        ),
    }
}

/// How a certificate stands.
#[derive(Debug, Clone, Copy, PartialEq, Eq, Structural)]
pub enum CertificateState {
    /// Further from its expiry than the threshold
    Valid,
    /// Within the threshold, but not expired
    Warning,
    /// Past its expiry
    Expired,
    /// It could not be checked
    Error,
}

impl Default for CertificateState {
    /// Valid, until something else is found.
    fn default() -> (r: CertificateState)
        ensures
            r == CertificateState::Valid,
    {
        CertificateState::Valid
    }
}

/// What was found of a certificate.
#[derive(Debug)]
pub struct CertificateStatus {
    pub url: String,
    pub state: CertificateState,
    pub days_until_expiry: Option<i64>,
    pub error: Option<String>,
}

/// What was found of all certificates.
#[derive(Debug)]
pub struct CertificateMonitorStatus {
    pub certificates: Vec<CertificateStatus>,
}

/// Whether all certificates are valid.
pub open spec fn all_valid(certificates: Seq<CertificateStatus>) -> bool {
    forall|i: int|
        0 <= i < certificates.len() ==> (#[trigger] certificates[i]).state
            == CertificateState::Valid
}

/// Whether a certificate has expired.
pub open spec fn any_expired(certificates: Seq<CertificateStatus>) -> bool {
    exists|i: int|
        0 <= i < certificates.len() && (#[trigger] certificates[i]).state
            == CertificateState::Expired
}

/// Whether two findings tell of the same sites in the same states.
pub open spec fn alike(a: Seq<CertificateStatus>, b: Seq<CertificateStatus>) -> bool {
    a.len() == b.len() && forall|i: int|
        0 <= i < a.len() ==> (#[trigger] a[i]).url@ == (#[trigger] b[i]).url@ && a[i].state
            == b[i].state
}

impl CertificateMonitorStatus {
    /// Whether all certificates are valid.
    pub fn is_ok(&self) -> (r: bool)
        ensures
            r == all_valid(self.certificates@),
    {
        let mut i: usize = 0;
        while i < self.certificates.len()
            invariant
                i <= self.certificates@.len(),
                all_valid(self.certificates@.take(i as int)),
            decreases self.certificates.len() - i,
        {
            if self.certificates[i].state != CertificateState::Valid {
                return false;
            }
            assert forall|j: int| 0 <= j < i + 1 implies (#[trigger] self.certificates@.take(
                i + 1,
            )[j]).state == CertificateState::Valid by {
                if j < i {
                    assert(self.certificates@.take(i as int)[j].state == CertificateState::Valid);
                }
            }
            i = i + 1;
        }
        assert(self.certificates@.take(i as int) =~= self.certificates@);
        true
    }

    /// Whether a certificate has expired.
    fn has_expired(&self) -> (r: bool)
        ensures
            r == any_expired(self.certificates@),
    {
        let mut i: usize = 0;
        while i < self.certificates.len()
            invariant
                i <= self.certificates@.len(),
                forall|j: int|
                    0 <= j < i ==> (#[trigger] self.certificates@[j]).state
                        != CertificateState::Expired,
            decreases self.certificates.len() - i,
        {
            if self.certificates[i].state == CertificateState::Expired {
                return true;
            }
            i = i + 1;
        }
        false
    }

    /// Whether what was found differs in more than days: in the sites or in
    /// their states.
    pub fn is_qualitatively_different(&self, other: &Self) -> (r: bool)
        ensures
            r == !alike(self.certificates@, other.certificates@),
    {
        if self.certificates.len() != other.certificates.len() {
            return true;
        }
        let mut i: usize = 0;
        while i < self.certificates.len()
            invariant
                i <= self.certificates@.len(),
                self.certificates@.len() == other.certificates@.len(),
                forall|j: int|
                    0 <= j < i ==> (#[trigger] self.certificates@[j]).url@
                        == other.certificates@[j].url@ && self.certificates@[j].state
                        == other.certificates@[j].state,
            decreases self.certificates.len() - i,
        {
            let cert1: &CertificateStatus = &self.certificates[i];
            let cert2: &CertificateStatus = &other.certificates[i];
            if !same(cert1.url.as_str(), cert2.url.as_str()) || cert1.state != cert2.state {
                assert(self.certificates@[i as int].url@ != other.certificates@[i as int].url@
                    || self.certificates@[i as int].state != other.certificates@[i as int].state);
                return true;
            }
            i = i + 1;
        }
        false
    }
}

/// Findings are never different from themselves, and differ both ways or
/// neither.
pub proof fn law_difference_is_symmetric(a: Seq<CertificateStatus>, b: Seq<CertificateStatus>)
    ensures
        alike(a, a),
        alike(a, b) <==> alike(b, a),
{
}

/// A site that is found in another state than before, whichever two states
/// these are, makes the findings different, and so does another site in its
/// place, a site more or a site less.
pub proof fn law_every_change_of_state_is_a_difference(
    a: Seq<CertificateStatus>,
    b: Seq<CertificateStatus>,
    i: int,
)
    ensures
        a.len() != b.len() ==> !alike(a, b),
        0 <= i < a.len() && i < b.len() && a[i].state != b[i].state ==> !alike(a, b),
        0 <= i < a.len() && i < b.len() && a[i].url@ != b[i].url@ ==> !alike(a, b),
        0 <= i < a.len() && i < b.len() && a[i].state == CertificateState::Expired && b[i].state
            == CertificateState::Warning ==> !alike(a, b),
{
}

/// Nothing else makes findings different: other numbers of days and other
/// errors do not.
pub proof fn law_other_days_are_no_difference(
    a: Seq<CertificateStatus>,
    b: Seq<CertificateStatus>,
)
    requires
        a.len() == b.len(),
        forall|i: int|
            #![trigger a[i], b[i]]
            0 <= i < a.len() ==> a[i].url@ == b[i].url@ && a[i].state == b[i].state,
    ensures
        alike(a, b),
{
}

// ---------------------------------------------------------------------------
// One certificate
// ---------------------------------------------------------------------------

/// The end of the validity of a certificate in DER form, in seconds since
/// 1970, where `x509_parser` can read it.
pub uninterp spec fn not_after(der: Seq<u8>) -> Option<i64>;

/// `x509_parser::parse_x509_certificate`, then `validity().not_after` of the
/// certificate and its `timestamp()`; nothing where it fails.
#[verifier::external_body]
fn x509_not_after(der: &[u8]) -> (r: Option<i64>)
    ensures
        r == not_after(der@),
{
    let (_, cert) = x509_parser::parse_x509_certificate(der).ok()?;
    Some(cert.validity().not_after.timestamp())
}

/// The instant at which a certificate expires, from the end of its validity in
/// seconds, or why there is none.
pub fn expiry_instant(not_after: Option<i64>) -> (r: Result<Timestamp, String>)
    ensures
        match not_after {
            Some(seconds) => if valid_instant(seconds as int, 0) {
                r matches Ok(t) && t@ == (Instant { seconds: seconds as int, nanos: 0 })
            } else {
                r matches Err(e) && e@ == "invalid certificate expiry date"@
            },
            None => r matches Err(e) && e@ == "failed to parse certificate"@,
        },
{
    match not_after {
        Some(seconds) => match Timestamp::new(seconds, 0) {
            Some(t) => Ok(t),
            None => Err("invalid certificate expiry date".to_owned()),
        },
        None => Err("failed to parse certificate".to_owned()),
    }
}

/// The instant at which a certificate in DER form expires.
pub fn certificate_expiry(der: &[u8]) -> (r: Result<Timestamp, String>)
    ensures
        match not_after(der@) {
            Some(seconds) => if valid_instant(seconds as int, 0) {
                r matches Ok(t) && t@ == (Instant { seconds: seconds as int, nanos: 0 })
            } else {
                r matches Err(e) && e@ == "invalid certificate expiry date"@
            },
            None => r matches Err(e) && e@ == "failed to parse certificate"@,
        },
{
    expiry_instant(x509_not_after(der))
}

/// The whole days in the nanoseconds that are left to a certificate.
pub open spec fn days_left(left: int) -> int {
    whole_days(whole_seconds(left))
}

/// The state of a certificate with a number of nanoseconds left, less than
/// none once it is past its expiry.
pub open spec fn state_for(left: int, warn_threshold_days: int) -> CertificateState {
    if left < 0 {
        CertificateState::Expired
    } else if days_left(left) <= warn_threshold_days {
        CertificateState::Warning
    } else {
        CertificateState::Valid
    }
}

/// What is found of a certificate, from the instant at which it expires or the
/// reason why that could not be found out.
pub fn check_certificate(
    url: &str,
    warn_threshold_days: u32,
    expiry: Result<Timestamp, String>,
    now: &Timestamp,
) -> (r: CertificateStatus)
    ensures
        r.url@ == url@,
        match expiry {
            Ok(expiry) => {
                let left = elapsed(expiry@, now@);
                &&& r.state == state_for(left, warn_threshold_days as int)
                &&& r.days_until_expiry matches Some(d) && d == days_left(left)
                &&& r.error is None
            },
            Err(e) => {
                &&& r.state == CertificateState::Error
                &&& r.days_until_expiry is None
                &&& r.error == Some(e)
            },
        },
{
    match expiry {
        Ok(expiry) => {
            let days: i64 = expiry.days_since(now);
            let state = if expiry.nanos_since(now) < 0 {
                CertificateState::Expired
            } else if days <= warn_threshold_days as i64 {
                CertificateState::Warning
            } else {
                CertificateState::Valid
            };
            CertificateStatus {
                url: url.to_owned(),
                state,
                days_until_expiry: Some(days),
                error: None,
            }
        },
        Err(e) => CertificateStatus {
            url: url.to_owned(),
            state: CertificateState::Error,
            days_until_expiry: None,
            error: Some(e),
        },
    }
}

/// A certificate is expired exactly when its expiry is past.  It never gets better
/// as its time runs out, and one that is warned of at a threshold is warned of,
/// or worse, at any higher one.
pub proof fn law_states_worsen_with_time(left: int, less: int, threshold: int, higher: int)
    requires
        less <= left,
        threshold <= higher,
    ensures
        state_for(left, threshold) is Expired <==> left < 0,
        state_for(left, threshold) is Expired ==> state_for(less, threshold) is Expired,
        !(state_for(left, threshold) is Valid) ==> !(state_for(less, threshold) is Valid),
        !(state_for(left, threshold) is Valid) ==> !(state_for(left, higher) is Valid),
{
}

/// The days that are told are the full days that are left, or that have gone by
/// since the expiry.
pub proof fn law_days_are_full_days(left: int)
    ensures
        left >= 0 ==> days_left(left) * 86_400_000_000_000 <= left < (days_left(left) + 1)
            * 86_400_000_000_000,
        left <= 0 ==> -days_left(left) * 86_400_000_000_000 <= -left < (-days_left(left) + 1)
            * 86_400_000_000_000,
{
    let gone = if left < 0 {
        -left
    } else {
        left
    };
    let s = gone / 1_000_000_000;
    let d = s / 86_400;
    assert(s * 1_000_000_000 <= gone < (s + 1) * 1_000_000_000);
    assert(d * 86_400 <= s < (d + 1) * 86_400);
    assert(days_left(left) == if left < 0 {
        -d
    } else {
        d
    });
}

/// A certificate is warned of from the threshold of days on, up to the last
/// nanosecond before the next day, and is valid before.
pub proof fn law_warnings_begin_at_the_threshold(left: int, threshold: int)
    requires
        threshold >= 0,
    ensures
        state_for(left, threshold) is Warning <==> 0 <= left < (threshold + 1) * 86_400_000_000_000,
        state_for(left, threshold) is Valid <==> left >= (threshold + 1) * 86_400_000_000_000,
        state_for(left, threshold) is Expired <==> left < 0,
{
    law_days_are_full_days(left);
}

/// A certificate counts as expired exactly from the first nanosecond after its
/// expiry on, by the clock.
pub proof fn law_expired_by_the_clock(expiry: Instant, now: Instant, threshold: int)
    requires
        ordinary(expiry),
        ordinary(now),
    ensures
        state_for(elapsed(expiry, now), threshold) is Expired <==> expiry.seconds * 1_000_000_000
            + expiry.nanos < now.seconds * 1_000_000_000 + now.nanos,
{
}

// ---------------------------------------------------------------------------
// What is told
// ---------------------------------------------------------------------------

/// The line of a certificate.
pub open spec fn certificate_line(cert: CertificateStatus) -> Seq<char> {
    match (cert.state, cert.days_until_expiry) {
        (CertificateState::Valid, Some(days)) => "✅ "@ + cert.url@ + ": "@ + decimal(days as int)
            + " days until expiry"@,
        (CertificateState::Valid, None) => "✅ "@ + cert.url@ + ": Valid"@,
        (CertificateState::Warning, Some(days)) => "⚠️ "@ + cert.url@ + ": "@ + decimal(
            days as int,
        ) + " days until expiry"@,
        (CertificateState::Warning, None) => "⚠️ "@ + cert.url@ + ": Expiring soon"@,
        (CertificateState::Expired, Some(days)) => "❌ "@ + cert.url@ + ": Expired "@ + decimal(
            -(days as int),
        ) + " days ago"@,
        (CertificateState::Expired, None) => "❌ "@ + cert.url@ + ": Expired"@,
        (CertificateState::Error, _) => "🚨 "@ + cert.url@ + ": Error - "@ + (match cert.error {
            Some(e) => e@,
            None => "Unknown error"@,
        }),
    }
}

/// The line of a certificate.
pub fn certificate_line_text(cert: &CertificateStatus) -> (r: String)
    ensures
        r@ == certificate_line(*cert),
{
    let mut r: String = match cert.state {
        CertificateState::Valid => "✅ ",
        CertificateState::Warning => "⚠️ ",
        CertificateState::Expired => "❌ ",
        CertificateState::Error => "🚨 ",
    }.to_owned();
    r.append(cert.url.as_str());
    match (cert.state, cert.days_until_expiry) {
        (CertificateState::Valid, Some(days)) | (CertificateState::Warning, Some(days)) => {
            r.append(": ");
            r.append(to_decimal(days).as_str());
            r.append(" days until expiry");
        },
        (CertificateState::Valid, None) => {
            r.append(": Valid");
        },
        (CertificateState::Warning, None) => {
            r.append(": Expiring soon");
        },
        (CertificateState::Expired, Some(days)) => {
            r.append(": Expired ");
            r.append(to_decimal_negated(days).as_str());
            r.append(" days ago");
        },
        (CertificateState::Expired, None) => {
            r.append(": Expired");
        },
        (CertificateState::Error, _) => {
            r.append(": Error - ");
            match &cert.error {
                Some(e) => {
                    r.append(e.as_str());
                },
                None => {
                    r.append("Unknown error");
                },
            }
        },
    }
    r
}

/// The sign for findings as a whole.
pub open spec fn overall_sign(certificates: Seq<CertificateStatus>) -> Seq<char> {
    if any_expired(certificates) {
        "🔴"@
    } else if all_valid(certificates) {
        "🟢"@
    } else {
        "🟡"@
    }
}

/// The lines that tell of findings, for Slack or for a terminal.
pub open spec fn status_lines(
    host_name: Seq<char>,
    run_at: Instant,
    certificates: Seq<CertificateStatus>,
    for_slack: bool,
) -> Seq<Seq<char>> {
    (if for_slack {
        seq![
            overall_sign(certificates) + " *certificate monitor* for "@ + host_name,
            ""@,
            date_text("Run at"@, run_at),
            ""@,
        ]
    } else {
        seq![
            overall_sign(certificates) + " Certificate monitor for "@ + host_name,
            ""@,
            "Run at "@ + utc_text(run_at.seconds, run_at.nanos),
            ""@,
        ]
    }) + (if all_valid(certificates) {
        seq!["🛫 All certificates valid"@]
    } else {
        Seq::empty()
    }) + certificates.map_values(|c: CertificateStatus| certificate_line(c))
}

/// The lines that tell of findings, for Slack or for a terminal.
pub fn format_status_lines(
    host_name: &str,
    run_at: &Timestamp,
    status: &CertificateMonitorStatus,
    for_slack: bool,
) -> (r: Vec<String>)
    ensures
        texts(r@) == status_lines(host_name@, run_at@, status.certificates@, for_slack),
{
    let ok = status.is_ok();
    let mut title: String = if status.has_expired() {
        "🔴".to_owned()
    } else if ok {
        "🟢".to_owned()
    } else {
        "🟡".to_owned()
    };
    let when: String = if for_slack {
        title.append(" *certificate monitor* for ");
        date_line("Run at", run_at)
    } else {
        title.append(" Certificate monitor for ");
        let mut when: String = "Run at ".to_owned();
        when.append(run_at.to_utc_text().as_str());
        when
    };
    title.append(host_name);
    let mut lines: Vec<String> = vec![title, "".to_owned(), when, "".to_owned()];
    if ok {
        lines.push("🛫 All certificates valid".to_owned());
    }
    let ghost head = texts(lines@);
    let ghost tail = status.certificates@.map_values(|c: CertificateStatus| certificate_line(c));
    assert(head + tail =~= status_lines(host_name@, run_at@, status.certificates@, for_slack));
    let mut i: usize = 0;
    assert(head + tail.take(0) =~= head);
    while i < status.certificates.len()
        invariant
            i <= status.certificates@.len(),
            tail == status.certificates@.map_values(|c: CertificateStatus| certificate_line(c)),
            texts(lines@) == head + tail.take(i as int),
        decreases status.certificates.len() - i,
    {
        let ghost was = texts(lines@);
        let line: String = certificate_line_text(&status.certificates[i]);
        lines.push(line);
        proof {
            assert(line@ == tail[i as int]);
            assert(texts(lines@) =~= was.push(line@));
            assert(was.push(line@) =~= head + tail.take(i + 1));
        }
        i = i + 1;
    }
    assert(tail.take(i as int) =~= tail);
    lines
}

/// What a check prints.
pub fn format_status_for_stdout(
    host_name: &str,
    run_at: &Timestamp,
    status: &CertificateMonitorStatus,
) -> (r: String)
    ensures
        r@ == joined(status_lines(host_name@, run_at@, status.certificates@, false), "\n"@),
{
    let lines = format_status_lines(host_name, run_at, status, false);
    join(&lines, "\n")
}

/// The message on findings for each webhook that is set.
pub fn messages(
    host_name: &str,
    run_at: &Timestamp,
    status: &CertificateMonitorStatus,
    slack_webhook_url: &Option<String>,
    slack_webhook_on_error_url: &Option<String>,
) -> (r: Vec<Message>)
    ensures
        messages_of(r@) == broadcast_messages(
            text_opt(*slack_webhook_url),
            text_opt(*slack_webhook_on_error_url),
            quotation(status_lines(host_name@, run_at@, status.certificates@, true)),
        ),
{
    let text = quote(&format_status_lines(host_name, run_at, status, true));
    to_webhooks(slack_webhook_url, slack_webhook_on_error_url, text.as_str())
}

/// The last findings, and whether there were any yet.
pub struct CertificateMonitor {
    pub status: CertificateMonitorStatus,
    pub first: bool,
}

impl CertificateMonitor {
    /// Nothing was found yet.
    pub fn new() -> (r: CertificateMonitor)
        ensures
            r.status.certificates@.len() == 0,
            r.first,
    {
        CertificateMonitor {
            status: CertificateMonitorStatus { certificates: Vec::new() },
            first: true,
        }
    }

    /// Takes in new findings, and tells whether there is something to tell:
    /// they are the first, or differ in more than days from the last.
    pub fn observe(&mut self, status: CertificateMonitorStatus) -> (notify: bool)
        ensures
            final(self).status == status,
            notify == (old(self).first || !alike(
                status.certificates@,
                old(self).status.certificates@,
            )),
            !final(self).first,
    {
        let notify = status.is_qualitatively_different(&self.status) || self.first;
        self.status = status;
        self.first = false;
        notify
    }
}

/// The line of a certificate begins with the sign of its state and with the
/// site.
#[verifier::spinoff_prover]
pub proof fn law_lines_begin_with_state_and_site(cert: CertificateStatus)
    ensures
        cert.state == CertificateState::Valid ==> ("✅ "@ + cert.url@).is_prefix_of(
            certificate_line(cert),
        ),
        cert.state == CertificateState::Warning ==> ("⚠️ "@ + cert.url@).is_prefix_of(
            certificate_line(cert),
        ),
        cert.state == CertificateState::Expired ==> ("❌ "@ + cert.url@).is_prefix_of(
            certificate_line(cert),
        ),
        cert.state == CertificateState::Error ==> ("🚨 "@ + cert.url@).is_prefix_of(
            certificate_line(cert),
        ),
{
    let line = certificate_line(cert);
    let sign = match cert.state {
        CertificateState::Valid => "✅ "@,
        CertificateState::Warning => "⚠️ "@,
        CertificateState::Expired => "❌ "@,
        CertificateState::Error => "🚨 "@,
    };
    let start = sign + cert.url@;
    assert(line.subrange(0, start.len() as int) =~= start);
}

/// The line of a certificate that is valid or warned of tells the days that are
/// left to it, as they were found.
#[verifier::spinoff_prover]
pub proof fn law_lines_tell_the_days_left(cert: CertificateStatus, days: i64)
    requires
        cert.state == CertificateState::Valid || cert.state == CertificateState::Warning,
        cert.days_until_expiry == Some(days),
    ensures
        holds(certificate_line(cert), decimal(days as int) + " days until expiry"@),
{
    let number = decimal(days as int);
    if cert.state == CertificateState::Valid {
        lemma_held_at_end("✅ "@ + cert.url@ + ": "@, number, " days until expiry"@);
    } else {
        lemma_held_at_end("⚠️ "@ + cert.url@ + ": "@, number, " days until expiry"@);
    }
}

/// What two texts make behind another stands in the whole.
proof fn lemma_held_at_end(a: Seq<char>, b: Seq<char>, c: Seq<char>)
    ensures
        holds(a + b + c, b + c),
{
    let s = a + b + c;
    let k = a.len() as int;
    assert(s.subrange(k, k + (b + c).len()) =~= b + c);
}

/// The line of a certificate that has expired tells the days since then, and
/// that of one that could not be checked tells the error.
#[verifier::spinoff_prover]
pub proof fn law_lines_tell_what_is_wrong(cert: CertificateStatus)
    ensures
        cert.state == CertificateState::Expired ==> (cert.days_until_expiry matches Some(days)
            ==> holds(
            certificate_line(cert),
            ": Expired "@ + decimal(-(days as int)) + " days ago"@,
        )),
        cert.state == CertificateState::Error ==> (cert.error matches Some(e) ==> holds(
            certificate_line(cert),
            ": Error - "@ + e@,
        )),
{
    let nothing = Seq::<char>::empty();
    if cert.state == CertificateState::Expired {
        if let Some(days) = cert.days_until_expiry {
            let told = ": Expired "@ + decimal(-(days as int)) + " days ago"@;
            lemma_holds("❌ "@ + cert.url@, told, nothing);
            assert(certificate_line(cert) =~= "❌ "@ + cert.url@ + told + nothing);
        }
    }
    if cert.state == CertificateState::Error {
        if let Some(e) = cert.error {
            let told = ": Error - "@ + e@;
            lemma_holds("🚨 "@ + cert.url@, told, nothing);
            assert(certificate_line(cert) =~= "🚨 "@ + cert.url@ + told + nothing);
        }
    }
}

/// The sign for all is red exactly if one certificate has expired, green
/// exactly if all are valid, and yellow otherwise.
pub proof fn law_signs_tell_the_worst(certificates: Seq<CertificateStatus>)
    ensures
        overall_sign(certificates) == "🔴"@ <==> exists|i: int|
            0 <= i < certificates.len() && (#[trigger] certificates[i]).state
                == CertificateState::Expired,
        overall_sign(certificates) == "🟢"@ <==> forall|i: int|
            0 <= i < certificates.len() ==> (#[trigger] certificates[i]).state
                == CertificateState::Valid,
        overall_sign(certificates) == "🔴"@ || overall_sign(certificates) == "🟢"@ || overall_sign(
            certificates,
        ) == "🟡"@,
{
    reveal_strlit("🔴");
    reveal_strlit("🟢");
    reveal_strlit("🟡");
    assert("🔴"@[0] != "🟢"@[0] && "🔴"@[0] != "🟡"@[0] && "🟢"@[0] != "🟡"@[0]);
    if any_expired(certificates) && all_valid(certificates) {
        let i = choose|i: int|
            0 <= i < certificates.len() && (#[trigger] certificates[i]).state
                == CertificateState::Expired;
        assert(certificates[i].state == CertificateState::Valid);
    }
}

/// Each certificate has a line of its own, in order and at the end; the host
/// stands in the first line, and that all is well is said only where it is.
pub proof fn law_every_certificate_has_a_line(
    host_name: Seq<char>,
    run_at: Instant,
    certificates: Seq<CertificateStatus>,
    for_slack: bool,
    i: int,
)
    requires
        0 <= i < certificates.len(),
    ensures
        ({
            let lines = status_lines(host_name, run_at, certificates, for_slack);
            let n = lines.len() - certificates.len();
            &&& n == (if forall|k: int|
                0 <= k < certificates.len() ==> (#[trigger] certificates[k]).state
                    == CertificateState::Valid {
                5int
            } else {
                4
            })
            &&& lines[n + i] == certificate_line(certificates[i])
            &&& host_name.is_suffix_of(lines[0])
            &&& overall_sign(certificates).is_prefix_of(lines[0])
        }),
{
    let lines = status_lines(host_name, run_at, certificates, for_slack);
    let sign = overall_sign(certificates);
    let first = lines[0];
    assert(first.subrange(0, sign.len() as int) =~= sign);
    assert(first.subrange(first.len() - host_name.len(), first.len() as int) =~= host_name);
}

/// A report begins with the sign for all, the host and the time, and says that
/// all certificates are valid exactly where they are.
pub proof fn law_reports_begin_with_sign_and_time(
    host_name: Seq<char>,
    run_at: Instant,
    certificates: Seq<CertificateStatus>,
)
    ensures
        ({
            let slack = status_lines(host_name, run_at, certificates, true);
            let plain = status_lines(host_name, run_at, certificates, false);
            let valid = forall|k: int|
                0 <= k < certificates.len() ==> (#[trigger] certificates[k]).state
                    == CertificateState::Valid;
            &&& slack.len() == plain.len()
            &&& slack[0] == overall_sign(certificates) + " *certificate monitor* for "@ + host_name
            &&& plain[0] == overall_sign(certificates) + " Certificate monitor for "@ + host_name
            &&& slack[1] == ""@ && plain[1] == ""@
            &&& slack[2] == date_text("Run at"@, run_at)
            &&& plain[2] == "Run at "@ + utc_text(run_at.seconds, run_at.nanos)
            &&& slack[3] == ""@ && plain[3] == ""@
            &&& slack.skip(4) == plain.skip(4)
            &&& valid ==> slack.len() == 5 + certificates.len() && slack[4]
                == "🛫 All certificates valid"@
            &&& !valid ==> slack.len() == 4 + certificates.len()
        }),
{
    let slack = status_lines(host_name, run_at, certificates, true);
    let plain = status_lines(host_name, run_at, certificates, false);
    assert(slack.skip(4) =~= plain.skip(4));
}

/// Without a number of days the line of a certificate tells its state in words,
/// and without an error that it is unknown.
#[verifier::spinoff_prover]
pub proof fn law_lines_without_numbers(cert: CertificateStatus)
    ensures
        cert.days_until_expiry is None && cert.state == CertificateState::Valid
            ==> certificate_line(cert) == "✅ "@ + cert.url@ + ": Valid"@,
        cert.days_until_expiry is None && cert.state == CertificateState::Warning
            ==> certificate_line(cert) == "⚠️ "@ + cert.url@ + ": Expiring soon"@,
        cert.days_until_expiry is None && cert.state == CertificateState::Expired
            ==> certificate_line(cert) == "❌ "@ + cert.url@ + ": Expired"@,
        cert.error is None && cert.state == CertificateState::Error ==> certificate_line(cert)
            == "🚨 "@ + cert.url@ + ": Error - "@ + "Unknown error"@,
{
}

/// Nothing stands behind the days in the line of a certificate.
#[verifier::spinoff_prover]
pub proof fn law_lines_end_with_the_days(cert: CertificateStatus, days: i64)
    requires
        cert.days_until_expiry == Some(days),
        cert.state != CertificateState::Error,
    ensures
        ({
            let n = cert.url@.len() + decimal(days as int).len();
            let m = cert.url@.len() + decimal(-(days as int)).len();
            &&& cert.state == CertificateState::Valid ==> certificate_line(cert).len() == n
                + "✅ "@.len() + ": "@.len() + " days until expiry"@.len()
            &&& cert.state == CertificateState::Warning ==> certificate_line(cert).len() == n
                + "⚠️ "@.len() + ": "@.len() + " days until expiry"@.len()
            &&& cert.state == CertificateState::Expired ==> certificate_line(cert).len() == m
                + "❌ "@.len() + ": Expired "@.len() + " days ago"@.len()
        }),
{
}

/// The first findings are told, and later ones exactly if they differ from the
/// last in a site or in the state of one.  They are what the next ones are held
/// against.
pub proof fn law_news_is_told(
    monitor: &mut CertificateMonitor,
    status: CertificateMonitorStatus,
    told: bool,
    i: int,
)
    requires
        call_ensures(CertificateMonitor::observe, (monitor, status), told),
    ensures
        ({
            let was = old(monitor).status.certificates@;
            let now = status.certificates@;
            &&& old(monitor).first ==> told
            &&& was.len() != now.len() ==> told
            &&& 0 <= i < was.len() && i < now.len() && (was[i].state != now[i].state
                || was[i].url@ != now[i].url@) ==> told
            &&& final(monitor).status == status
            &&& !final(monitor).first
        }),
{
}

/// What is found of a certificate goes by the clock: it is expired once its
/// expiry is past, warned of from the threshold of days on, and valid before.
/// Where the expiry could not be found out, the reason is kept.
pub proof fn law_checks_go_by_the_clock(
    url: &str,
    threshold: u32,
    expiry: Result<Timestamp, String>,
    now: Timestamp,
    found: CertificateStatus,
)
    requires
        call_ensures(check_certificate, (url, threshold, expiry, &now), found),
        ordinary(now@),
        expiry matches Ok(at) ==> ordinary(at@),
    ensures
        found.url@ == url@,
        expiry matches Err(e) ==> found.state == CertificateState::Error && found.error == Some(e)
            && found.days_until_expiry is None,
        expiry matches Ok(at) ==> {
            let left = (at@.seconds * 1_000_000_000 + at@.nanos) - (now@.seconds * 1_000_000_000
                + now@.nanos);
            &&& found.error is None
            &&& found.state == CertificateState::Expired <==> left < 0
            &&& found.state == CertificateState::Warning <==> 0 <= left < (threshold + 1)
                * 86_400_000_000_000
            &&& found.state == CertificateState::Valid <==> left >= (threshold + 1)
                * 86_400_000_000_000
            &&& found.days_until_expiry is Some
            &&& left >= 0 ==> found.days_until_expiry->Some_0 * 86_400_000_000_000 <= left < (
            found.days_until_expiry->Some_0 + 1) * 86_400_000_000_000
            &&& left <= 0 ==> -found.days_until_expiry->Some_0 * 86_400_000_000_000 <= -left < (
            -found.days_until_expiry->Some_0 + 1) * 86_400_000_000_000
        },
{
    if let Ok(at) = expiry {
        let left = elapsed(at@, now@);
        law_warnings_begin_at_the_threshold(left, threshold as int);
        law_days_are_full_days(left);
    }
}

/// A certificate expires at the second that it names.
pub proof fn law_expiry_is_the_second_named(
    named: Option<i64>,
    expiry: Result<Timestamp, String>,
)
    requires
        call_ensures(expiry_instant, (named,), expiry),
    ensures
        named is None ==> expiry is Err,
        expiry matches Ok(t) ==> named == Some(t@.seconds as i64) && t@.nanos == 0,
        named matches Some(seconds) ==> (-8_334_601_228_800 <= seconds <= 8_210_266_876_799
            <==> expiry is Ok),
{
}

/// Unless configured, certificates are warned of from fifteen days on; the
/// configuration that was asked for goes before that of the monitor.
pub proof fn law_configuration(
    days: u32,
    asked: Option<String>,
    other: Option<String>,
    path: Result<String, String>,
)
    requires
        call_ensures(default_warn_threshold_days, (), days),
        call_ensures(config_path, (asked, other), path),
    ensures
        days == 15,
        asked is Some ==> path == Ok::<String, String>(asked->Some_0),
        asked is None && other is Some ==> path == Ok::<String, String>(other->Some_0),
        asked is None && other is None ==> path is Err,
{
}

/// Findings go once to each webhook that is set, and to no other.
pub proof fn law_findings_go_to_each_webhook(
    host_name: &str,
    run_at: Timestamp,
    status: CertificateMonitorStatus,
    url: Option<String>,
    on_error_url: Option<String>,
    sent: Vec<Message>,
    i: int,
)
    requires
        call_ensures(messages, (host_name, &run_at, &status, &url, &on_error_url), sent),
    ensures
        sent@.len() == (if url is Some {
            1int
        } else {
            0
        }) + (if on_error_url is Some {
            1int
        } else {
            0
        }),
        url matches Some(u) ==> sent@[0].url@ == u@,
        on_error_url matches Some(u) ==> sent@.last().url@ == u@,
        0 <= i < sent@.len() ==> sent@[i].text@ == quotation(
            status_lines(host_name@, run_at@, status.certificates@, true),
        ),
{
    let all = messages_of(sent@);
    assert(all.len() == sent@.len());
    assert forall|k: int| 0 <= k < sent@.len() implies all[k] == (
        (#[trigger] sent@[k]).url@,
        sent@[k].text@,
    ) by {}
    if sent@.len() > 0 {
        assert(all[sent@.len() - 1] == (sent@.last().url@, sent@.last().text@));
        assert(all[0] == (sent@[0].url@, sent@[0].text@));
    }
    if 0 <= i < sent@.len() {
        assert(all[i] == (sent@[i].url@, sent@[i].text@));
    }
}

/// What a check prints holds each line of the report.
pub proof fn law_printed_reports_hold_each_line(
    host_name: &str,
    run_at: Timestamp,
    status: CertificateMonitorStatus,
    printed: String,
    i: int,
)
    requires
        call_ensures(format_status_for_stdout, (host_name, &run_at, &status), printed),
        0 <= i < status_lines(host_name@, run_at@, status.certificates@, false).len(),
    ensures
        holds(
            printed@,
            status_lines(host_name@, run_at@, status.certificates@, false)[i],
        ),
{
    lemma_joined_holds(
        status_lines(host_name@, run_at@, status.certificates@, false),
        "\n"@,
        i,
    );
}

} // verus!
