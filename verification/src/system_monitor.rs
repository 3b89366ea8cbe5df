//! Watching how full memory, swap and disks are, and telling of changes.

use vstd::prelude::*;
use vstd::string::*;
use std::str::FromStr;
use crate::slack::{
    broadcast_messages, date_line, date_text, law_date_tells_the_time, law_quotation_holds_lines,
    messages_of, quotation, quote, to_webhooks, Message,
};
use crate::text::{decimal, holds, lemma_holds_within, same, str_opt, text_opt, texts};
use crate::text_map::{has_key, keys_of, map_of, TextMap};
use crate::time::{Instant, Timestamp};

verus! {

/// How a usage stands to the limits that are set for it.
#[derive(Debug, Clone, Copy, PartialEq, Eq, Structural)]
pub enum Level {
    /// At or above the limit from which on it is warned of
    High,
    /// Between the two limits
    Between,
    /// Below the limit under which the warning ends
    Low,
}

/// A usage that was read.
#[derive(Debug)]
pub struct Reading {
    /// How it stands to its limits, if it has any
    pub level: Option<Level>,
    /// The percentage, for a reader
    pub percent: String,
}

/// A disk that was read.
#[derive(Debug)]
pub struct DiskReading {
    pub mount: String,
    pub total_bytes: u64,
    pub usage: Reading,
    /// The size in GiB, for a reader
    pub gigabytes: String,
}

/// What is warned of about a disk.
#[derive(Debug)]
pub struct DiskWarning {
    pub percent: String,
    pub gigabytes: String,
}

/// What is warned of: the memory and the swap space by their percentages, the
/// disks by where they are mounted.
pub struct SystemMonitorStatus {
    pub memory_warning: Option<String>,
    pub swap_warning: Option<String>,
    pub disk_warnings: TextMap<DiskWarning>,
}

/// The number of bytes that `byte_unit` reads from a text.
pub uninterp spec fn byte_size(text: Seq<char>) -> Option<u64>;

/// `byte_unit::Byte::from_str`, then `as_u64`; nothing where it fails.
#[verifier::external_body]
fn parse_byte_size(text: &str) -> (r: Option<u64>)
    ensures
        r == byte_size(text@),
{
    byte_unit::Byte::from_str(text).ok().map(|b| b.as_u64())
}

/// The size below which disks are not looked at, from the configuration.
pub fn disk_size_threshold(configured: Option<&str>) -> (r: Result<Option<u64>, String>)
    ensures
        match str_opt(configured) {
            None => r matches Ok(t) && t is None,
            Some(text) => match byte_size(text) {
                Some(n) => r matches Ok(t) && t == Some(n),
                None => r matches Err(e) && e@ == "invalid disk size threshold"@,
            },
        },
{
    match configured {
        None => Ok(None),
        Some(text) => match parse_byte_size(text) {
            Some(n) => Ok(Some(n)),
            None => Err("invalid disk size threshold".to_owned()),
        },
    }
}

/// A warning after a reading: a high usage is warned of, the warning stays
/// until the usage is low, and without limits there is none.
pub open spec fn warning_after(previous: Option<String>, reading: Reading) -> Option<String> {
    match reading.level {
        Some(Level::High) => Some(reading.percent),
        Some(Level::Between) => previous,
        Some(Level::Low) => None,
        None => None,
    }
}

/// A warning after a reading.
pub fn update_warning(previous: Option<String>, reading: Reading) -> (r: Option<String>)
    ensures
        r == warning_after(previous, reading),
{
    match reading.level {
        Some(Level::High) => Some(reading.percent),
        Some(Level::Between) => previous,
        Some(Level::Low) => None,
        None => None,
    }
}

/// Whether a disk of that size is looked at: it has a size, and one that is not
/// below the threshold.
pub open spec fn size_considered(total_bytes: u64, threshold: Option<u64>) -> bool {
    total_bytes != 0 && (threshold matches Some(t) ==> total_bytes >= t)
}

/// Whether a disk is looked at.
pub open spec fn considered(disk: DiskReading, threshold: Option<u64>) -> bool {
    size_considered(disk.total_bytes, threshold)
}

/// Whether a disk of that size is looked at.
pub fn is_considered(total_bytes: u64, threshold: Option<u64>) -> (r: bool)
    ensures
        r == size_considered(total_bytes, threshold),
{
    match threshold {
        Some(t) => total_bytes != 0 && total_bytes >= t,
        None => total_bytes != 0,
    }
}

/// The warning that a high usage of a disk gives.
pub open spec fn disk_warning(disk: DiskReading) -> DiskWarning {
    DiskWarning { percent: disk.usage.percent, gigabytes: disk.gigabytes }
}

/// The warnings on disks once the disks have been read, in order: what was
/// warned of stays warned of while the disk is there and its usage is not low.
pub open spec fn disk_warnings_after(
    previous: Map<Seq<char>, DiskWarning>,
    disks: Seq<DiskReading>,
    threshold: Option<u64>,
) -> Map<Seq<char>, DiskWarning>
    decreases disks.len(),
{
    if disks.len() == 0 {
        Map::empty()
    } else {
        let rest = disk_warnings_after(previous, disks.drop_last(), threshold);
        let disk = disks.last();
        let mount = disk.mount@;
        if !considered(disk, threshold) {
            rest
        } else {
            match disk.usage.level {
                Some(Level::High) => rest.insert(mount, disk_warning(disk)),
                Some(Level::Between) => if !rest.dom().contains(mount) && previous.dom().contains(
                    mount,
                ) {
                    rest.insert(mount, previous[mount])
                } else {
                    rest
                },
                Some(Level::Low) => rest.remove(mount),
                None => rest,
            }
        }
    }
}

/// The warnings on disks once the disks have been read.
fn update_disk_warnings(
    previous: &TextMap<DiskWarning>,
    disks: Vec<DiskReading>,
    threshold: Option<u64>,
) -> (r: TextMap<DiskWarning>)
    ensures
        map_of(r@) == disk_warnings_after(map_of(previous@), disks@, threshold),
{
    let ghost all = disks@;
    let ghost before = map_of(previous@);
    let mut r: TextMap<DiskWarning> = TextMap::new();
    assert(map_of(r@) =~= Map::<Seq<char>, DiskWarning>::empty());
    assert(all.take(0) =~= Seq::empty());
    for disk in it: disks
        invariant
            it.seq() == all,
            before == map_of(previous@),
            map_of(r@) == disk_warnings_after(before, all.take(it.index() as int), threshold),
    {
        let ghost rest = map_of(r@);
        proof {
            assert(all.take(it.index() as int + 1).drop_last() =~= all.take(it.index() as int));
            assert(rest.dom().contains(disk.mount@) <==> has_key(r@, disk.mount@));
            assert(before.dom().contains(disk.mount@) <==> has_key(previous@, disk.mount@));
        }
        if is_considered(disk.total_bytes, threshold) {
            match disk.usage.level {
                Some(Level::High) => {
                    r.insert(
                        disk.mount,
                        DiskWarning { percent: disk.usage.percent, gigabytes: disk.gigabytes },
                    );
                },
                Some(Level::Between) => {
                    if r.get(disk.mount.as_str()).is_none() {
                        if let Some(w) = previous.get(disk.mount.as_str()) {
                            let kept = DiskWarning {
                                percent: w.percent.clone(),
                                gigabytes: w.gigabytes.clone(),
                            };
                            assert(kept == before[disk.mount@]);
                            r.insert(disk.mount, kept);
                        }
                    }
                },
                Some(Level::Low) => {
                    let _ = r.remove(disk.mount.as_str());
                },
                None => {},
            }
        }
    }
    assert(all.take(all.len() as int) =~= all);
    r
}

/// The keys under which two maps hold something are the same.
pub open spec fn same_mounts(
    a: Seq<(Seq<char>, DiskWarning)>,
    b: Seq<(Seq<char>, DiskWarning)>,
) -> bool {
    keys_of(a) == keys_of(b)
}

impl SystemMonitorStatus {
    /// Nothing is warned of.
    pub fn new() -> (r: SystemMonitorStatus)
        ensures
            r.memory_warning is None,
            r.swap_warning is None,
            r.disk_warnings@.len() == 0,
    {
        SystemMonitorStatus {
            memory_warning: None,
            swap_warning: None,
            disk_warnings: TextMap::new(),
        }
    }

    /// What is warned of once memory, swap space and disks have been read.
    pub fn next(
        &self,
        memory: Reading,
        swap: Reading,
        disks: Vec<DiskReading>,
        threshold: Option<u64>,
    ) -> (r: SystemMonitorStatus)
        ensures
            r.memory_warning == warning_after(self.memory_warning, memory),
            r.swap_warning == warning_after(self.swap_warning, swap),
            map_of(r.disk_warnings@) == disk_warnings_after(
                map_of(self.disk_warnings@),
                disks@,
                threshold,
            ),
    {
        SystemMonitorStatus {
            memory_warning: update_warning(self.memory_warning.clone(), memory),
            swap_warning: update_warning(self.swap_warning.clone(), swap),
            disk_warnings: update_disk_warnings(&self.disk_warnings, disks, threshold),
        }
    }

    /// Whether nothing is warned of.
    pub open spec fn ok(self) -> bool {
        self.memory_warning is None && self.swap_warning is None && self.disk_warnings@.len() == 0
    }

    /// Whether the same things are warned of, be it with other numbers.
    pub open spec fn like(self, other: Self) -> bool {
        &&& self.memory_warning is Some == other.memory_warning is Some
        &&& self.swap_warning is Some == other.swap_warning is Some
        &&& same_mounts(self.disk_warnings@, other.disk_warnings@)
    }

    /// Whether nothing is warned of.
    pub fn is_ok(&self) -> (r: bool)
        ensures
            r == self.ok(),
    {
        self.memory_warning.is_none() && self.swap_warning.is_none() && self.disk_warnings.len()
            == 0
    }

    /// Whether what is warned of differs in more than numbers.
    pub fn is_qualitatively_different(&self, other: &Self) -> (r: bool)
        ensures
            r == !self.like(*other),
    {
        if self.memory_warning.is_some() != other.memory_warning.is_some()
            || self.swap_warning.is_some() != other.swap_warning.is_some() {
            return true;
        }
        let ghost a = keys_of(self.disk_warnings@);
        let ghost b = keys_of(other.disk_warnings@);
        let n: usize = self.disk_warnings.len();
        if n != other.disk_warnings.len() {
            assert(a.len() != b.len());
            return true;
        }
        let mut i: usize = 0;
        while i < n
            invariant
                n == self.disk_warnings@.len(),
                n == other.disk_warnings@.len(),
                i <= n,
                a == keys_of(self.disk_warnings@),
                b == keys_of(other.disk_warnings@),
                forall|j: int| 0 <= j < i ==> a[j] == b[j],
            decreases n - i,
        {
            if !same(self.disk_warnings.key(i).as_str(), other.disk_warnings.key(i).as_str()) {
                assert(a[i as int] != b[i as int]);
                return true;
            }
            i = i + 1;
        }
        assert(a =~= b);
        false
    }
}

/// What is warned of never differs from itself, and differs both ways or
/// neither.
pub proof fn law_difference_is_symmetric(a: SystemMonitorStatus, b: SystemMonitorStatus)
    ensures
        a.like(a),
        a.like(b) <==> b.like(a),
{
}

/// A warning begins only with a high usage, ends only with a low one (or
/// without limits), and stays as it is in between.
pub proof fn law_warnings_have_hysteresis(previous: Option<String>, reading: Reading)
    ensures
        previous is None && warning_after(previous, reading) is Some ==> reading.level == Some(
            Level::High,
        ),
        previous is Some && warning_after(previous, reading) is None ==> reading.level == Some(
            Level::Low,
        ) || reading.level is None,
        reading.level == Some(Level::Between) ==> warning_after(previous, reading) == previous,
{
}

/// A disk is warned of only if its usage is high now, or was high before and is
/// not low.
pub proof fn law_disk_warnings_have_hysteresis(
    previous: Map<Seq<char>, DiskWarning>,
    disks: Seq<DiskReading>,
    threshold: Option<u64>,
    mount: Seq<char>,
)
    requires
        disk_warnings_after(previous, disks, threshold).dom().contains(mount),
    ensures
        exists|i: int|
            0 <= i < disks.len() && (#[trigger] disks[i]).mount@ == mount && considered(
                disks[i],
                threshold,
            ) && (disks[i].usage.level == Some(Level::High) || (disks[i].usage.level == Some(
                Level::Between,
            ) && previous.dom().contains(mount))),
    decreases disks.len(),
{
    if disks.len() > 0 {
        let rest = disks.drop_last();
        let disk = disks.last();
        if disk_warnings_after(previous, rest, threshold).dom().contains(mount) {
            law_disk_warnings_have_hysteresis(previous, rest, threshold, mount);
            let i = choose|i: int|
                0 <= i < rest.len() && (#[trigger] rest[i]).mount@ == mount && considered(
                    rest[i],
                    threshold,
                ) && (rest[i].usage.level == Some(Level::High) || (rest[i].usage.level == Some(
                    Level::Between,
                ) && previous.dom().contains(mount)));
            assert(disks[i] == rest[i]);
        } else {
            assert(disks[disks.len() - 1] == disk);
            assert(disk.mount@ == mount);
        }
    }
}

/// A high usage is always warned of, with its own percentage; a low one never
/// is, and neither is one without limits.
pub proof fn law_high_usage_is_warned_of(previous: Option<String>, reading: Reading)
    ensures
        reading.level == Some(Level::High) ==> warning_after(previous, reading) == Some(
            reading.percent,
        ),
        reading.level == Some(Level::Low) ==> warning_after(previous, reading) is None,
        reading.level is None ==> warning_after(previous, reading) is None,
{
}

/// What is read of other disks afterwards makes no difference to a disk.
proof fn lemma_other_disks(
    previous: Map<Seq<char>, DiskWarning>,
    disks: Seq<DiskReading>,
    threshold: Option<u64>,
    mount: Seq<char>,
    n: int,
)
    requires
        0 <= n <= disks.len(),
        forall|j: int| n <= j < disks.len() ==> (#[trigger] disks[j]).mount@ != mount,
    ensures
        disk_warnings_after(previous, disks, threshold).dom().contains(mount)
            == disk_warnings_after(previous, disks.take(n), threshold).dom().contains(mount),
        disk_warnings_after(previous, disks, threshold)[mount] == disk_warnings_after(
            previous,
            disks.take(n),
            threshold,
        )[mount],
    decreases disks.len(),
{
    if n == disks.len() {
        assert(disks.take(n) =~= disks);
    } else {
        let less = disks.drop_last();
        assert(less.take(n) =~= disks.take(n));
        assert forall|j: int| n <= j < less.len() implies (#[trigger] less[j]).mount@ != mount by {
            assert(less[j] == disks[j]);
        }
        lemma_other_disks(previous, less, threshold, mount, n);
        assert(disks[disks.len() - 1].mount@ != mount);
    }
}

/// Every disk that is large enough to be looked at and whose usage is high is
/// warned of, with the percentage and the size that were read last of it,
/// whatever the other disks read.
pub proof fn law_every_full_disk_is_warned_of(
    previous: Map<Seq<char>, DiskWarning>,
    disks: Seq<DiskReading>,
    threshold: Option<u64>,
    i: int,
)
    requires
        0 <= i < disks.len(),
        disks[i].total_bytes > 0,
        threshold matches Some(t) ==> disks[i].total_bytes >= t,
        disks[i].usage.level == Some(Level::High),
        forall|j: int| i < j < disks.len() ==> (#[trigger] disks[j]).mount@ != disks[i].mount@,
    ensures
        ({
            let warned = disk_warnings_after(previous, disks, threshold);
            let mount = disks[i].mount@;
            &&& warned.dom().contains(mount)
            &&& warned[mount].percent == disks[i].usage.percent
            &&& warned[mount].gigabytes == disks[i].gigabytes
        }),
{
    let mount = disks[i].mount@;
    lemma_other_disks(previous, disks, threshold, mount, i + 1);
    assert(disks.take(i + 1).last() == disks[i]);
}

/// A disk whose usage is low when it is read last is not warned of, whatever
/// was warned of before.
pub proof fn law_low_usage_ends_the_warning(
    previous: Map<Seq<char>, DiskWarning>,
    disks: Seq<DiskReading>,
    threshold: Option<u64>,
    i: int,
)
    requires
        0 <= i < disks.len(),
        disks[i].total_bytes > 0,
        threshold matches Some(t) ==> disks[i].total_bytes >= t,
        disks[i].usage.level == Some(Level::Low),
        forall|j: int| i < j < disks.len() ==> (#[trigger] disks[j]).mount@ != disks[i].mount@,
    ensures
        !disk_warnings_after(previous, disks, threshold).dom().contains(disks[i].mount@),
{
    lemma_other_disks(previous, disks, threshold, disks[i].mount@, i + 1);
    assert(disks.take(i + 1).last() == disks[i]);
}

/// A disk that is read once, with a usage between the limits, stays as it was:
/// warned of as before, or not at all.
pub proof fn law_usage_in_between_changes_nothing(
    previous: Map<Seq<char>, DiskWarning>,
    disks: Seq<DiskReading>,
    threshold: Option<u64>,
    i: int,
)
    requires
        0 <= i < disks.len(),
        disks[i].total_bytes > 0,
        threshold matches Some(t) ==> disks[i].total_bytes >= t,
        disks[i].usage.level == Some(Level::Between),
        forall|j: int|
            0 <= j < disks.len() && j != i ==> (#[trigger] disks[j]).mount@ != disks[i].mount@,
    ensures
        ({
            let warned = disk_warnings_after(previous, disks, threshold);
            let mount = disks[i].mount@;
            &&& warned.dom().contains(mount) <==> previous.dom().contains(mount)
            &&& warned.dom().contains(mount) ==> warned[mount] == previous[mount]
        }),
{
    let mount = disks[i].mount@;
    let first = disks.take(i);
    lemma_other_disks(previous, disks, threshold, mount, i + 1);
    assert(disks.take(i + 1).last() == disks[i]);
    assert(disks.take(i + 1).drop_last() =~= first);
    assert forall|j: int| 0 <= j < first.len() implies (#[trigger] first[j]).mount@ != mount by {
        assert(first[j] == disks[j]);
    }
    lemma_other_disks(previous, first, threshold, mount, 0);
    assert(first.take(0) =~= Seq::empty());
}

/// A disk that is not there, that has no size or that is smaller than the
/// threshold is not warned of.
pub proof fn law_small_and_missing_disks_are_not_warned_of(
    previous: Map<Seq<char>, DiskWarning>,
    disks: Seq<DiskReading>,
    threshold: Option<u64>,
    mount: Seq<char>,
)
    requires
        forall|i: int|
            0 <= i < disks.len() && (#[trigger] disks[i]).mount@ == mount ==> disks[i].total_bytes
                == 0 || (threshold matches Some(t) && disks[i].total_bytes < t),
    ensures
        !disk_warnings_after(previous, disks, threshold).dom().contains(mount),
{
    if disk_warnings_after(previous, disks, threshold).dom().contains(mount) {
        law_disk_warnings_have_hysteresis(previous, disks, threshold, mount);
        let i = choose|i: int|
            0 <= i < disks.len() && (#[trigger] disks[i]).mount@ == mount && considered(
                disks[i],
                threshold,
            ) && (disks[i].usage.level == Some(Level::High) || (disks[i].usage.level == Some(
                Level::Between,
            ) && previous.dom().contains(mount)));
        assert(disks[i].mount@ == mount);
    }
}

/// A warning more or less, of memory, swap space or any disk, is a difference;
/// other numbers are none.
pub proof fn law_every_warning_counts(
    a: SystemMonitorStatus,
    b: SystemMonitorStatus,
    mount: Seq<char>,
)
    ensures
        a.memory_warning is Some != b.memory_warning is Some ==> !a.like(b),
        a.swap_warning is Some != b.swap_warning is Some ==> !a.like(b),
        has_key(a.disk_warnings@, mount) != has_key(b.disk_warnings@, mount) ==> !a.like(b),
        a.memory_warning is Some == b.memory_warning is Some && a.swap_warning is Some
            == b.swap_warning is Some && a.disk_warnings@.len() == b.disk_warnings@.len() && (forall|
            i: int,
        |
            #![trigger a.disk_warnings@[i]]
            0 <= i < a.disk_warnings@.len() ==> a.disk_warnings@[i].0 == b.disk_warnings@[i].0)
            ==> a.like(b),
        a.ok() <==> a.memory_warning is None && a.swap_warning is None && forall|m: Seq<char>|
            !#[trigger] has_key(a.disk_warnings@, m),
{
    let x = a.disk_warnings@;
    let y = b.disk_warnings@;
    if a.like(b) {
        assert forall|i: int| 0 <= i < x.len() implies (#[trigger] x[i]).0 == y[i].0 by {
            assert(keys_of(x)[i] == keys_of(y)[i]);
        }
        assert(keys_of(x).len() == keys_of(y).len());
        if has_key(x, mount) {
            let i = choose|i: int| 0 <= i < x.len() && (#[trigger] x[i]).0 == mount;
            assert(y[i].0 == mount);
        }
        if has_key(y, mount) {
            let i = choose|i: int| 0 <= i < y.len() && (#[trigger] y[i]).0 == mount;
            assert(x[i].0 == mount);
        }
    }
    if x.len() == y.len() && forall|i: int|
        #![trigger x[i]]
        0 <= i < x.len() ==> x[i].0 == y[i].0 {
        assert(keys_of(x) =~= keys_of(y));
    }
    if x.len() > 0 {
        assert(x[0].0 == x[0].0);
        assert(has_key(x, x[0].0));
    }
}

// ---------------------------------------------------------------------------
// What is told
// ---------------------------------------------------------------------------

/// The line of a disk.
pub open spec fn disk_line(mount: Seq<char>, w: DiskWarning) -> Seq<char> {
    "❗ Disk usage: "@ + w.percent@ + "% of "@ + w.gigabytes@ + " GiB ("@ + mount + ")"@
}

/// The line of a percentage that is warned of, if it is.
pub open spec fn percent_line(label: Seq<char>, warning: Option<String>) -> Seq<Seq<char>> {
    match warning {
        Some(percent) => seq![label + percent@ + "%"@],
        None => Seq::empty(),
    }
}

/// The message on what is warned of.
pub open spec fn notice(
    host_name: Seq<char>,
    run_at: Instant,
    status: SystemMonitorStatus,
) -> Seq<char> {
    quotation(
        seq![
            (if status.ok() {
                "🟢"@
            } else {
                "🟡"@
            }) + " *system monitor* for "@ + host_name,
            ""@,
            date_text("Run at"@, run_at),
            ""@,
        ] + (if status.ok() {
            seq!["🛫 System metrics nominal"@]
        } else {
            Seq::empty()
        }) + percent_line("❗ Memory usage: "@, status.memory_warning) + percent_line(
            "❗ Swap usage: "@,
            status.swap_warning,
        ) + status.disk_warnings@.map_values(|e: (Seq<char>, DiskWarning)| disk_line(e.0, e.1)),
    )
}

/// Adds the line of a percentage that is warned of, if it is.
fn push_percent(lines: &mut Vec<String>, label: &str, warning: &Option<String>)
    ensures
        texts(final(lines)@) == texts(old(lines)@) + percent_line(label@, *warning),
{
    let ghost was = lines@;
    if let Some(percent) = warning {
        let mut line: String = label.to_owned();
        line.append(percent.as_str());
        line.append("%");
        lines.push(line);
    }
    assert(texts(lines@) =~= texts(was) + percent_line(label@, *warning));
}

/// The message on what is warned of.
pub fn notice_text(host_name: &str, run_at: &Timestamp, status: &SystemMonitorStatus) -> (r: String)
    ensures
        r@ == notice(host_name@, run_at@, *status),
{
    let ok = status.is_ok();
    let mut title: String = if ok {
        "🟢".to_owned()
    } else {
        "🟡".to_owned()
    };
    title.append(" *system monitor* for ");
    title.append(host_name);
    let mut lines: Vec<String> = vec![
        title,
        "".to_owned(),
        date_line("Run at", run_at),
        "".to_owned(),
    ];
    let ghost top = texts(lines@);
    assert(top =~= seq![
        (if status.ok() {
            "🟢"@
        } else {
            "🟡"@
        }) + " *system monitor* for "@ + host_name@,
        ""@,
        date_text("Run at"@, run_at@),
        ""@,
    ]);
    if ok {
        lines.push("🛫 System metrics nominal".to_owned());
    }
    assert(texts(lines@) =~= top + (if status.ok() {
        seq!["🛫 System metrics nominal"@]
    } else {
        Seq::empty()
    }));
    push_percent(&mut lines, "❗ Memory usage: ", &status.memory_warning);
    push_percent(&mut lines, "❗ Swap usage: ", &status.swap_warning);
    let ghost head = texts(lines@);
    let ghost tail = status.disk_warnings@.map_values(
        |e: (Seq<char>, DiskWarning)| disk_line(e.0, e.1),
    );
    let n: usize = status.disk_warnings.len();
    let mut i: usize = 0;
    assert(head + tail.take(0) =~= head);
    while i < n
        invariant
            n == status.disk_warnings@.len(),
            i <= n,
            tail == status.disk_warnings@.map_values(
                |e: (Seq<char>, DiskWarning)| disk_line(e.0, e.1),
            ),
            texts(lines@) == head + tail.take(i as int),
        decreases n - i,
    {
        let ghost was = texts(lines@);
        let w: &DiskWarning = status.disk_warnings.value(i);
        let mut line: String = "❗ Disk usage: ".to_owned();
        line.append(w.percent.as_str());
        line.append("% of ");
        line.append(w.gigabytes.as_str());
        line.append(" GiB (");
        line.append(status.disk_warnings.key(i).as_str());
        line.append(")");
        lines.push(line);
        proof {
            assert(line@ == tail[i as int]);
            assert(texts(lines@) =~= was.push(line@));
            assert(was.push(line@) =~= head + tail.take(i + 1));
        }
        i = i + 1;
    }
    assert(tail.take(n as int) =~= tail);
    quote(&lines)
}

/// The message on what is warned of for each webhook that is set.
pub fn messages(
    host_name: &str,
    run_at: &Timestamp,
    status: &SystemMonitorStatus,
    slack_webhook_url: &Option<String>,
    slack_webhook_on_error_url: &Option<String>,
) -> (r: Vec<Message>)
    ensures
        messages_of(r@) == broadcast_messages(
            text_opt(*slack_webhook_url),
            text_opt(*slack_webhook_on_error_url),
            notice(host_name@, run_at@, *status),
        ),
{
    let text = notice_text(host_name, run_at, status);
    to_webhooks(slack_webhook_url, slack_webhook_on_error_url, text.as_str())
}

/// What was last warned of, and whether anything was read yet.
pub struct SystemMonitor {
    pub status: SystemMonitorStatus,
    pub first: bool,
}

impl SystemMonitor {
    /// Nothing was read yet.
    pub fn new() -> (r: SystemMonitor)
        ensures
            r.status.ok(),
            r.first,
    {
        SystemMonitor { status: SystemMonitorStatus::new(), first: true }
    }

    /// Takes in readings, and tells whether there is something to tell: they
    /// are the first, or what is warned of differs in more than numbers.
    pub fn observe(
        &mut self,
        memory: Reading,
        swap: Reading,
        disks: Vec<DiskReading>,
        threshold: Option<u64>,
    ) -> (notify: bool)
        ensures
            final(self).status.memory_warning == warning_after(
                old(self).status.memory_warning,
                memory,
            ),
            final(self).status.swap_warning == warning_after(old(self).status.swap_warning, swap),
            map_of(final(self).status.disk_warnings@) == disk_warnings_after(
                map_of(old(self).status.disk_warnings@),
                disks@,
                threshold,
            ),
            notify == (old(self).first || !final(self).status.like(old(self).status)),
            !final(self).first,
    {
        let status = self.status.next(memory, swap, disks, threshold);
        let notify = status.is_qualitatively_different(&self.status) || self.first;
        self.status = status;
        self.first = false;
        notify
    }
}

/// The message tells of everything that is warned of, and that all is well only
/// where nothing is.
pub proof fn law_notice_tells_every_warning(
    host_name: Seq<char>,
    run_at: Instant,
    status: SystemMonitorStatus,
    i: int,
)
    ensures
        status.memory_warning matches Some(percent) ==> holds(
            notice(host_name, run_at, status),
            "❗ Memory usage: "@ + percent@ + "%"@,
        ),
        status.swap_warning matches Some(percent) ==> holds(
            notice(host_name, run_at, status),
            "❗ Swap usage: "@ + percent@ + "%"@,
        ),
        0 <= i < status.disk_warnings@.len() ==> holds(
            notice(host_name, run_at, status),
            "❗ Disk usage: "@ + status.disk_warnings@[i].1.percent@ + "% of "@
                + status.disk_warnings@[i].1.gigabytes@ + " GiB ("@ + status.disk_warnings@[i].0
                + ")"@,
        ),
        status.ok() ==> holds(notice(host_name, run_at, status), "🛫 System metrics nominal"@),
        status.ok() ==> holds(
            notice(host_name, run_at, status),
            "🟢"@ + " *system monitor* for "@ + host_name,
        ),
        !status.ok() ==> holds(
            notice(host_name, run_at, status),
            "🟡"@ + " *system monitor* for "@ + host_name,
        ),
{
    let top = seq![
        (if status.ok() {
            "🟢"@
        } else {
            "🟡"@
        }) + " *system monitor* for "@ + host_name,
        ""@,
        date_text("Run at"@, run_at),
        ""@,
    ];
    let nominal = if status.ok() {
        seq!["🛫 System metrics nominal"@]
    } else {
        Seq::<Seq<char>>::empty()
    };
    let memory = percent_line("❗ Memory usage: "@, status.memory_warning);
    let swap = percent_line("❗ Swap usage: "@, status.swap_warning);
    let disks = status.disk_warnings@.map_values(
        |e: (Seq<char>, DiskWarning)| disk_line(e.0, e.1),
    );
    let lines = top + nominal + memory + swap + disks;
    assert(notice(host_name, run_at, status) == quotation(lines));
    law_quotation_holds_lines(lines, 0);
    assert(lines[0] == top[0]);
    if status.ok() {
        law_quotation_holds_lines(lines, 4);
        assert(lines[4] == nominal[0]);
    }
    if memory.len() > 0 {
        let k = (top.len() + nominal.len()) as int;
        law_quotation_holds_lines(lines, k);
        assert(lines[k] == memory[0]);
    }
    if swap.len() > 0 {
        let k = (top.len() + nominal.len() + memory.len()) as int;
        law_quotation_holds_lines(lines, k);
        assert(lines[k] == swap[0]);
    }
    if 0 <= i < disks.len() {
        let k = top.len() + nominal.len() + memory.len() + swap.len() + i;
        law_quotation_holds_lines(lines, k);
        assert(lines[k] == disks[i]);
    }
}

/// The message tells when the usages were read.
pub proof fn law_notice_tells_the_time(
    host_name: Seq<char>,
    run_at: Instant,
    status: SystemMonitorStatus,
)
    ensures
        holds(
            notice(host_name, run_at, status),
            "<!date^"@ + decimal(run_at.seconds) + "^"@ + "Run at"@,
        ),
{
    let when = date_text("Run at"@, run_at);
    let top = seq![
        (if status.ok() {
            "🟢"@
        } else {
            "🟡"@
        }) + " *system monitor* for "@ + host_name,
        ""@,
        when,
        ""@,
    ];
    let lines = top + (if status.ok() {
        seq!["🛫 System metrics nominal"@]
    } else {
        Seq::empty()
    }) + percent_line("❗ Memory usage: "@, status.memory_warning) + percent_line(
        "❗ Swap usage: "@,
        status.swap_warning,
    ) + status.disk_warnings@.map_values(|e: (Seq<char>, DiskWarning)| disk_line(e.0, e.1));
    assert(notice(host_name, run_at, status) == quotation(lines));
    assert(lines[2] == when);
    law_quotation_holds_lines(lines, 2);
    law_date_tells_the_time("Run at"@, run_at);
    lemma_holds_within(
        quotation(lines),
        when,
        "<!date^"@ + decimal(run_at.seconds) + "^"@ + "Run at"@,
    );
}

/// Where nothing is warned of, the message tells that and nothing else.
pub proof fn law_nominal_notice(host_name: Seq<char>, run_at: Instant, status: SystemMonitorStatus)
    requires
        status.memory_warning is None,
        status.swap_warning is None,
        status.disk_warnings@.len() == 0,
    ensures
        notice(host_name, run_at, status) == quotation(
            seq![
                "🟢"@ + " *system monitor* for "@ + host_name,
                ""@,
                date_text("Run at"@, run_at),
                ""@,
                "🛫 System metrics nominal"@,
            ],
        ),
{
    let top = seq![
        "🟢"@ + " *system monitor* for "@ + host_name,
        ""@,
        date_text("Run at"@, run_at),
        ""@,
    ];
    let f = |e: (Seq<char>, DiskWarning)| disk_line(e.0, e.1);
    assert(status.ok());
    assert(top + seq!["🛫 System metrics nominal"@] + percent_line(
        "❗ Memory usage: "@,
        status.memory_warning,
    ) + percent_line("❗ Swap usage: "@, status.swap_warning) + status.disk_warnings@.map_values(f)
        =~= seq![
        "🟢"@ + " *system monitor* for "@ + host_name,
        ""@,
        date_text("Run at"@, run_at),
        ""@,
        "🛫 System metrics nominal"@,
    ]);
}

/// A reading without limits, or of a disk that is not looked at, changes nothing;
/// one between the limits keeps a warning that an earlier reading has given.
pub proof fn law_readings_that_tell_nothing(
    previous: Map<Seq<char>, DiskWarning>,
    disks: Seq<DiskReading>,
    threshold: Option<u64>,
    disk: DiskReading,
)
    ensures
        ({
            let before = disk_warnings_after(previous, disks, threshold);
            let after = disk_warnings_after(previous, disks.push(disk), threshold);
            &&& disk.usage.level is None ==> after == before
            &&& disk.total_bytes == 0 ==> after == before
            &&& threshold matches Some(t) ==> (disk.total_bytes < t ==> after == before)
            &&& disk.usage.level == Some(Level::Between) && before.dom().contains(disk.mount@)
                ==> after == before
        }),
{
    assert(disks.push(disk).drop_last() =~= disks);
}

/// Memory, swap space and disks are each warned of by their own readings.
pub proof fn law_each_usage_has_its_own_reading(
    status: SystemMonitorStatus,
    memory: Reading,
    swap: Reading,
    disks: Vec<DiskReading>,
    threshold: Option<u64>,
    next: SystemMonitorStatus,
    i: int,
)
    requires
        call_ensures(SystemMonitorStatus::next, (&status, memory, swap, disks, threshold), next),
    ensures
        memory.level == Some(Level::High) ==> next.memory_warning == Some(memory.percent),
        memory.level == Some(Level::Between) ==> next.memory_warning == status.memory_warning,
        memory.level == Some(Level::Low) || memory.level is None ==> next.memory_warning is None,
        swap.level == Some(Level::High) ==> next.swap_warning == Some(swap.percent),
        swap.level == Some(Level::Between) ==> next.swap_warning == status.swap_warning,
        swap.level == Some(Level::Low) || swap.level is None ==> next.swap_warning is None,
        0 <= i < disks@.len() && disks@[i].total_bytes > 0 && (threshold matches Some(t)
            ==> disks@[i].total_bytes >= t) && disks@[i].usage.level == Some(Level::High) && (
        forall|j: int| i < j < disks@.len() ==> (#[trigger] disks@[j]).mount@ != disks@[i].mount@)
            ==> has_key(next.disk_warnings@, disks@[i].mount@),
{
    if 0 <= i < disks@.len() && disks@[i].total_bytes > 0 && (threshold matches Some(t)
        ==> disks@[i].total_bytes >= t) && disks@[i].usage.level == Some(Level::High) && (forall|
        j: int,
    |
        i < j < disks@.len() ==> (#[trigger] disks@[j]).mount@ != disks@[i].mount@) {
        law_every_full_disk_is_warned_of(
            map_of(status.disk_warnings@),
            disks@,
            threshold,
            i,
        );
        assert(map_of(next.disk_warnings@).dom().contains(disks@[i].mount@));
    }
}

/// The first readings are told, and later ones exactly if a warning has come or
/// gone.
pub proof fn law_news_is_told(
    monitor: &mut SystemMonitor,
    memory: Reading,
    swap: Reading,
    disks: Vec<DiskReading>,
    threshold: Option<u64>,
    told: bool,
    mount: Seq<char>,
)
    requires
        call_ensures(SystemMonitor::observe, (monitor, memory, swap, disks, threshold), told),
    ensures
        ({
            let was = old(monitor).status;
            let now = final(monitor).status;
            &&& old(monitor).first ==> told
            &&& was.memory_warning is Some != now.memory_warning is Some ==> told
            &&& was.swap_warning is Some != now.swap_warning is Some ==> told
            &&& has_key(was.disk_warnings@, mount) != has_key(now.disk_warnings@, mount) ==> told
            &&& !old(monitor).first && was.memory_warning is Some == now.memory_warning is Some
                && was.swap_warning is Some == now.swap_warning is Some && keys_of(
                was.disk_warnings@,
            ) == keys_of(now.disk_warnings@) ==> !told
            &&& memory.level == Some(Level::High) ==> now.memory_warning == Some(memory.percent)
            &&& swap.level == Some(Level::High) ==> now.swap_warning == Some(swap.percent)
            &&& !final(monitor).first
        }),
{
    law_every_warning_counts(final(monitor).status, old(monitor).status, mount);
}

/// A disk is looked at exactly if it has a size and none below the threshold.
pub proof fn law_small_disks_are_not_looked_at(
    total_bytes: u64,
    threshold: Option<u64>,
    looked_at: bool,
)
    requires
        call_ensures(is_considered, (total_bytes, threshold), looked_at),
    ensures
        total_bytes == 0 ==> !looked_at,
        threshold is None && total_bytes > 0 ==> looked_at,
        threshold matches Some(t) ==> (total_bytes > 0 ==> (looked_at <==> total_bytes >= t)),
{
}

/// A threshold is what is configured; without one, disks of any size count.
pub proof fn law_thresholds_are_configured(
    configured: Option<&str>,
    threshold: Result<Option<u64>, String>,
)
    requires
        call_ensures(disk_size_threshold, (configured,), threshold),
    ensures
        configured is None ==> threshold == Ok::<Option<u64>, String>(None),
        configured matches Some(text) ==> (byte_size(text@) is Some <==> threshold is Ok),
        configured matches Some(text) ==> (byte_size(text@) is Some ==> threshold == Ok::<
            Option<u64>,
            String,
        >(byte_size(text@))),
{
}

/// What is warned of goes once to each webhook that is set, and to no other.
pub proof fn law_warnings_go_to_each_webhook(
    host_name: &str,
    run_at: Timestamp,
    status: SystemMonitorStatus,
    url: Option<String>,
    on_error_url: Option<String>,
    sent: Vec<Message>,
    i: int,
)
    requires
        call_ensures(messages, (host_name, &run_at, &status, &url, &on_error_url), sent),
    ensures
        sent@.len() == (if url is Some {
            1int
        } else {
            0
        }) + (if on_error_url is Some {
            1int
        } else {
            0
        }),
        url matches Some(u) ==> sent@[0].url@ == u@,
        on_error_url matches Some(u) ==> sent@.last().url@ == u@,
        0 <= i < sent@.len() ==> sent@[i].text@ == notice(host_name@, run_at@, status),
{
    let all = messages_of(sent@);
    assert(all.len() == sent@.len());
    if sent@.len() > 0 {
        assert(all[sent@.len() - 1] == (sent@.last().url@, sent@.last().text@));
        assert(all[0] == (sent@[0].url@, sent@[0].text@));
    }
    if 0 <= i < sent@.len() {
        assert(all[i] == (sent@[i].url@, sent@[i].text@));
    }
}

/// Each reading bears on its own disk alone; one between the limits brings back
/// what was warned of at the check before, and begins no warning.
pub proof fn law_each_reading_bears_on_its_own_disk(
    previous: Map<Seq<char>, DiskWarning>,
    disks: Seq<DiskReading>,
    threshold: Option<u64>,
    disk: DiskReading,
    other: Seq<char>,
)
    ensures
        ({
            let before = disk_warnings_after(previous, disks, threshold);
            let after = disk_warnings_after(previous, disks.push(disk), threshold);
            let mount = disk.mount@;
            &&& other != mount ==> (after.dom().contains(other) <==> before.dom().contains(other))
            &&& other != mount && before.dom().contains(other) ==> after[other] == before[other]
            &&& disk.usage.level == Some(Level::Between) && !before.dom().contains(mount)
                && after.dom().contains(mount) ==> previous.dom().contains(mount) && after[mount]
                == previous[mount]
            &&& disk.usage.level == Some(Level::Between) && previous.dom().contains(mount)
                && disk.total_bytes > 0 && (threshold matches Some(t) ==> disk.total_bytes >= t)
                ==> after.dom().contains(mount)
        }),
{
    assert(disks.push(disk).drop_last() =~= disks);
}

} // verus!
