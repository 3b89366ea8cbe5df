//! A short table of the services: which there are, and whether they run.

use vstd::prelude::*;
use vstd::string::*;
use crate::compose_types::{Compose, Service};
use crate::container_monitor::{
    is_reported_running, law_last_report_counts, reported_running, ServiceState,
};
use crate::status::{info_of, listed, Info, StatusColor, JOB, SERVICE};
use crate::tasks::RUN_KEY;
use crate::text::texts;

verus! {

/// A row of the short table.
#[derive(Debug)]
pub struct ShortRow {
    pub profile: String,
    pub name: String,
    pub service_type: String,
    pub status: String,
    /// The color that the status is shown in, if any
    pub color: Option<StatusColor>,
}

/// The short table: titles and rows, or the text in its place where there is
/// nothing to show.
#[derive(Debug)]
pub enum ShortTable {
    Text(String),
    Table { titles: Vec<String>, rows: Vec<ShortRow> },
}

/// The word for what a service does, and its color.  Of a job only a run that
/// goes on is marked.
pub open spec fn short_status(job: bool, running: bool) -> (Seq<char>, Option<StatusColor>) {
    if job {
        if running {
            ("RUNNING"@, Some(StatusColor::Green))
        } else {
            ("FINISHED"@, None)
        }
    } else if running {
        ("UP"@, Some(StatusColor::Green))
    } else {
        ("DOWN"@, Some(StatusColor::Red))
    }
}

/// Whether a row shows a service as it is reported.
pub open spec fn shows_short(row: ShortRow, info: Info, states: Seq<ServiceState>) -> bool {
    let (word, color) = short_status(
        info.service_type == JOB@,
        reported_running(states, info.name),
    );
    &&& row.profile@ == info.profile
    &&& row.name@ == info.name
    &&& row.service_type@ == info.service_type
    &&& row.status@ == word
    &&& row.color == color
}

/// The titles of the columns.
pub open spec fn short_titles() -> Seq<Seq<char>> {
    seq!["Profile"@, "Name"@, "Type"@, "Status"@]
}

/// The row of a service.
fn short_row(name: &str, service: &Service, states: &Vec<ServiceState>) -> (r: ShortRow)
    ensures
        shows_short(r, info_of(name@, *service, None), states@),
{
    let profile: String = match &service.profiles {
        Some(profiles) => if profiles.len() > 0 {
            profiles[0].clone()
        } else {
            "".to_owned()
        },
        None => "".to_owned(),
    };
    let job = match &service.labels {
        Some(labels) => labels.get(RUN_KEY).is_some(),
        None => false,
    };
    let running = is_reported_running(states, name);
    let (word, color): (&str, Option<StatusColor>) = if job {
        if running {
            ("RUNNING", Some(StatusColor::Green))
        } else {
            ("FINISHED", None)
        }
    } else if running {
        ("UP", Some(StatusColor::Green))
    } else {
        ("DOWN", Some(StatusColor::Red))
    };
    proof {
        reveal_strlit("job");
        reveal_strlit("service");
        assert(JOB@.len() != SERVICE@.len());
    }
    ShortRow {
        profile,
        name: name.to_owned(),
        service_type: if job {
            JOB.to_owned()
        } else {
            SERVICE.to_owned()
        },
        status: word.to_owned(),
        color,
    }
}

/// The short table: a row for each service of the compose file.
pub fn short_table(compose: &Compose, states: &Vec<ServiceState>) -> (r: ShortTable)
    ensures
        match r {
            ShortTable::Text(text) => listed(compose.services@, None).len() == 0 && text@
                == "No services found in compose file."@,
            ShortTable::Table { titles, rows } => {
                let infos = listed(compose.services@, None);
                &&& infos.len() > 0
                &&& texts(titles@) == short_titles()
                &&& rows@.len() == infos.len()
                &&& forall|i: int|
                    0 <= i < rows@.len() ==> shows_short(#[trigger] rows@[i], infos[i], states@)
            },
        },
{
    let ghost entries = compose.services@;
    let mut rows: Vec<ShortRow> = Vec::new();
    let n: usize = compose.services.len();
    let mut i: usize = 0;
    while i < n
        invariant
            n == entries.len(),
            entries == compose.services@,
            i <= n,
            rows@.len() == listed(entries.take(i as int), None).len(),
            forall|j: int|
                0 <= j < rows@.len() ==> shows_short(
                    #[trigger] rows@[j],
                    listed(entries.take(i as int), None)[j],
                    states@,
                ),
        decreases n - i,
    {
        assert(entries.take(i + 1).drop_last() =~= entries.take(i as int));
        if let Some(service) = compose.services.value(i) {
            rows.push(short_row(compose.services.key(i).as_str(), service, states));
        }
        i = i + 1;
    }
    assert(entries.take(n as int) =~= entries);
    if rows.len() == 0 {
        return ShortTable::Text("No services found in compose file.".to_owned());
    }
    let titles: Vec<String> = vec![
        "Profile".to_owned(),
        "Name".to_owned(),
        "Type".to_owned(),
        "Status".to_owned(),
    ];
    assert(texts(titles@) =~= short_titles());
    ShortTable::Table { titles, rows }
}

/// A row tells of the service it is for, and whether that runs by its last
/// report: of a service by `UP` in green or `DOWN` in red, of a job by `RUNNING`
/// in green or a plain `FINISHED`.
pub proof fn law_short_rows_tell_what_runs(row: ShortRow, info: Info, states: Seq<ServiceState>)
    requires
        shows_short(row, info, states),
    ensures
        row.profile@ == info.profile,
        row.name@ == info.name,
        row.service_type@ == info.service_type,
        ({
            let job = info.service_type == "job"@;
            let running = reported_running(states, info.name);
            &&& job && running ==> row.status@ == "RUNNING"@
            &&& job && !running ==> row.status@ == "FINISHED"@
            &&& !job && running ==> row.status@ == "UP"@
            &&& !job && !running ==> row.status@ == "DOWN"@
            &&& row.color == Some(StatusColor::Green) <==> running
            &&& row.color == Some(StatusColor::Red) <==> !running && !job
        }),
        forall|k: int|
            0 <= k < states.len() && (#[trigger] states[k]).service@ == info.name && (forall|j: int|
                k < j < states.len() ==> (#[trigger] states[j]).service@ != info.name) ==> (
            row.color == Some(StatusColor::Green) <==> states[k].state@ == "running"@),
        (forall|k: int| 0 <= k < states.len() ==> (#[trigger] states[k]).service@ != info.name)
            ==> row.color != Some(StatusColor::Green),
{
    assert forall|k: int|
        0 <= k < states.len() && (#[trigger] states[k]).service@ == info.name && (forall|j: int|
            k < j < states.len() ==> (#[trigger] states[j]).service@ != info.name) implies (
    row.color == Some(StatusColor::Green) <==> states[k].state@ == "running"@) by {
        law_last_report_counts(states, info.name, k);
    }
    if forall|k: int| 0 <= k < states.len() ==> (#[trigger] states[k]).service@ != info.name {
        law_last_report_counts(states, info.name, 0);
    }
}

/// The short table has a row for each service that is described, in order; without
/// such services it has none.
pub proof fn law_short_table_has_a_row_for_each_service(
    compose: Compose,
    states: Vec<ServiceState>,
    table: ShortTable,
    i: int,
)
    requires
        call_ensures(short_table, (&compose, &states), table),
    ensures
        table matches ShortTable::Table { titles, rows } ==> {
            let infos = listed(compose.services@, None);
            &&& texts(titles@) == seq!["Profile"@, "Name"@, "Type"@, "Status"@]
            &&& rows@.len() == infos.len()
            &&& 0 <= i < rows@.len() ==> rows@[i].name@ == infos[i].name && (rows@[i].color == Some(
                StatusColor::Green,
            ) <==> reported_running(states@, infos[i].name))
        },
        listed(compose.services@, None).len() == 0 <==> table is Text,
{
    if let ShortTable::Table { titles, rows } = table {
        if 0 <= i < rows@.len() {
            assert(shows_short(rows@[i], listed(compose.services@, None)[i], states@));
        }
    }
}

} // verus!
