//! From statistics rows to gauge families.
//!
//! The caller runs the queries and hands the rows over as plain values. Each
//! row yields its own gauges, so a statistic without rows yields none.
use vstd::prelude::*;
use vstd::string::StringExecFns;
use crate::routes::ApiError;
use crate::routes::Cause;

verus! {

/// One row of `statsinfo.cpustats()`: the counters of one CPU.
#[derive(Clone, Debug, PartialEq, Eq)]
pub struct CpuStatRow {
    pub cpu_id: String,
    pub cpu_system: i64,
    pub cpu_idle: i64,
    pub cpu_iowait: i64,
}

/// One row of `statsinfo.tablespaces()`: the space of one tablespace.
#[derive(Clone, Debug, PartialEq, Eq)]
pub struct TablespaceRow {
    pub name: String,
    pub location: String,
    pub avail: i64,
    pub total: i64,
}

/// What the queries of one request returned.
#[derive(Clone, Debug, PartialEq, Eq)]
pub struct StoreSnapshot {
    pub cpustats: Vec<CpuStatRow>,
    pub tablespaces: Vec<TablespaceRow>,
}

/// A metric family: a named gauge with its help text and its one sample.
#[derive(Clone, Debug, PartialEq, Eq)]
pub struct MetricFamily {
    pub name: String,
    pub help: String,
    pub value: i64,
}

/// A metric family as contracts see it.
pub struct FamilyView {
    pub name: Seq<char>,
    pub help: Seq<char>,
    pub value: int,
}

impl View for MetricFamily {
    type V = FamilyView;

    open spec fn view(&self) -> FamilyView {
        FamilyView { name: self.name@, help: self.help@, value: self.value as int }
    }
}

/// The families of a list, each by its view.
pub open spec fn family_views(families: Seq<MetricFamily>) -> Seq<FamilyView> {
    families.map_values(|f: MetricFamily| f@)
}

/// The name of a gauge: the statistic, the resource it is about, and the
/// quantity, as in `cpustats_0_cpu_idle`.
pub open spec fn gauge_name(statistic: Seq<char>, resource: Seq<char>, quantity: Seq<char>) -> Seq<
    char,
> {
    statistic + resource + "_"@ + quantity
}

/// The three gauges of one CPU.
pub open spec fn cpu_row_families(row: CpuStatRow) -> Seq<FamilyView> {
    seq![
        FamilyView {
            name: gauge_name("cpustats_"@, row.cpu_id@, "cpu_system"@),
            help: "The amount of time CPUs spent in running the operating system functions"@,
            value: row.cpu_system as int,
        },
        FamilyView {
            name: gauge_name("cpustats_"@, row.cpu_id@, "cpu_idle"@),
            help: "The amount of time CPUs weren't  busy"@,
            value: row.cpu_idle as int,
        },
        FamilyView {
            name: gauge_name("cpustats_"@, row.cpu_id@, "cpu_iowait"@),
            help: "The amount of time CPUs where idle during which the system had pending I/O requests"@,
            value: row.cpu_iowait as int,
        },
    ]
}

/// The two gauges of one tablespace.
pub open spec fn tablespace_row_families(row: TablespaceRow) -> Seq<FamilyView> {
    seq![
        FamilyView {
            name: gauge_name("tablespaces_"@, row.name@, "avail"@),
            help: "Available space in "@ + row.location@,
            value: row.avail as int,
        },
        FamilyView {
            name: gauge_name("tablespaces_"@, row.name@, "total"@),
            help: "Total space in "@ + row.location@,
            value: row.total as int,
        },
    ]
}

/// The gauges of all CPU rows, row after row.
pub open spec fn cpustats_families(rows: Seq<CpuStatRow>) -> Seq<FamilyView>
    decreases rows.len(),
{
    if rows.len() == 0 {
        Seq::empty()
    } else {
        cpustats_families(rows.drop_last()) + cpu_row_families(rows.last())
    }
}

/// The gauges of all tablespace rows, row after row.
pub open spec fn tablespaces_families(rows: Seq<TablespaceRow>) -> Seq<FamilyView>
    decreases rows.len(),
{
    if rows.len() == 0 {
        Seq::empty()
    } else {
        tablespaces_families(rows.drop_last()) + tablespace_row_families(rows.last())
    }
}

/// The families of one request: the CPU gauges, then the tablespace gauges.
pub open spec fn snapshot_families(snapshot: StoreSnapshot) -> Seq<FamilyView> {
    cpustats_families(snapshot.cpustats@) + tablespaces_families(snapshot.tablespaces@)
}

/// Each CPU row gives three families and each tablespace row two: a statistic
/// without rows gives no family at all.
pub proof fn lemma_families_per_row(cpustats: Seq<CpuStatRow>, tablespaces: Seq<TablespaceRow>)
    ensures
        cpustats_families(cpustats).len() == 3 * cpustats.len(),
        tablespaces_families(tablespaces).len() == 2 * tablespaces.len(),
        cpustats.len() == 0 ==> cpustats_families(cpustats) == Seq::<FamilyView>::empty(),
        tablespaces.len() == 0 ==> tablespaces_families(tablespaces) == Seq::<
            FamilyView,
        >::empty(),
    decreases cpustats.len() + tablespaces.len(),
{
    if cpustats.len() > 0 {
        lemma_families_per_row(cpustats.drop_last(), tablespaces);
    } else if tablespaces.len() > 0 {
        lemma_families_per_row(cpustats, tablespaces.drop_last());
    }
}

/// Adds the gauge `statistic + resource + "_" + quantity` to `metrics`.
fn append_stat(
    metrics: &mut Vec<MetricFamily>,
    statistic: &str,
    resource: &str,
    quantity: &str,
    help: String,
    value: i64,
)
    ensures
        family_views(final(metrics)@) == family_views(old(metrics)@).push(
            FamilyView {
                name: gauge_name(statistic@, resource@, quantity@),
                help: help@,
                value: value as int,
            },
        ),
{
    let name = String::from_str(statistic).concat(resource).concat("_").concat(quantity);
    let family = MetricFamily { name, help, value };
    metrics.push(family);
    assert(family_views(metrics@) =~= family_views(old(metrics)@).push(family@));
}

/// The gauges of the CPU statistics: three for each row, in the order of the
/// rows.
pub fn cpustats_metrics(rows: &Vec<CpuStatRow>) -> (metrics: Vec<MetricFamily>)
    ensures
        family_views(metrics@) == cpustats_families(rows@),
        metrics@.len() == 3 * rows@.len(),
{
    let mut metrics: Vec<MetricFamily> = Vec::new();
    let mut i: usize = 0;
    assert(family_views(metrics@) =~= cpustats_families(rows@.take(0)));
    while i < rows.len()
        invariant
            i <= rows.len(),
            family_views(metrics@) == cpustats_families(rows@.take(i as int)),
        decreases rows.len() - i,
    {
        let row = &rows[i];
        let ghost before = family_views(metrics@);
        append_stat(
            &mut metrics,
            "cpustats_",
            row.cpu_id.as_str(),
            "cpu_system",
            String::from_str(
                "The amount of time CPUs spent in running the operating system functions",
            ),
            row.cpu_system,
        );
        append_stat(
            &mut metrics,
            "cpustats_",
            row.cpu_id.as_str(),
            "cpu_idle",
            String::from_str("The amount of time CPUs weren't  busy"),
            row.cpu_idle,
        );
        append_stat(
            &mut metrics,
            "cpustats_",
            row.cpu_id.as_str(),
            "cpu_iowait",
            String::from_str(
                "The amount of time CPUs where idle during which the system had pending I/O requests",
            ),
            row.cpu_iowait,
        );
        proof {
            assert(rows@.take(i + 1).drop_last() =~= rows@.take(i as int));
            assert(rows@.take(i + 1).last() == rows@[i as int]);
            assert(family_views(metrics@) =~= before + cpu_row_families(rows@[i as int]));
        }
        i = i + 1;
    }
    proof {
        assert(rows@.take(i as int) =~= rows@);
        lemma_families_per_row(rows@, Seq::empty());
        assert(family_views(metrics@).len() == metrics@.len());
    }
    metrics
}

/// The gauges of the tablespace statistics: two for each row, in the order of
/// the rows.
pub fn tablespaces_metrics(rows: &Vec<TablespaceRow>) -> (metrics: Vec<MetricFamily>)
    ensures
        family_views(metrics@) == tablespaces_families(rows@),
        metrics@.len() == 2 * rows@.len(),
{
    let mut metrics: Vec<MetricFamily> = Vec::new();
    let mut i: usize = 0;
    assert(family_views(metrics@) =~= tablespaces_families(rows@.take(0)));
    while i < rows.len()
        invariant
            i <= rows.len(),
            family_views(metrics@) == tablespaces_families(rows@.take(i as int)),
        decreases rows.len() - i,
    {
        let row = &rows[i];
        let ghost before = family_views(metrics@);
        append_stat(
            &mut metrics,
            "tablespaces_",
            row.name.as_str(),
            "avail",
            String::from_str("Available space in ").concat(row.location.as_str()),
            row.avail,
        );
        append_stat(
            &mut metrics,
            "tablespaces_",
            row.name.as_str(),
            "total",
            String::from_str("Total space in ").concat(row.location.as_str()),
            row.total,
        );
        proof {
            assert(rows@.take(i + 1).drop_last() =~= rows@.take(i as int));
            assert(rows@.take(i + 1).last() == rows@[i as int]);
            assert(family_views(metrics@) =~= before + tablespace_row_families(rows@[i as int]));
        }
        i = i + 1;
    }
    proof {
        assert(rows@.take(i as int) =~= rows@);
        lemma_families_per_row(Seq::empty(), rows@);
        assert(family_views(metrics@).len() == metrics@.len());
    }
    metrics
}

/// The metric families of one request. Where the store could not be reached
/// or a query failed, the cause comes back as an internal server error;
/// otherwise the CPU gauges are followed by the tablespace gauges.
pub fn gather(fetched: Result<StoreSnapshot, Cause>) -> (r: Result<Vec<MetricFamily>, ApiError>)
    ensures
        match fetched {
            Ok(snapshot) => r is Ok && family_views(r->Ok_0@) == snapshot_families(snapshot),
            Err(cause) => r is Err && r->Err_0 == ApiError::InternalServerError(cause),
        },
{
    match fetched {
        Ok(snapshot) => {
            let mut metrics = cpustats_metrics(&snapshot.cpustats);
            let mut more = tablespaces_metrics(&snapshot.tablespaces);
            let ghost head = family_views(metrics@);
            let ghost tail = family_views(more@);
            metrics.append(&mut more);
            assert(family_views(metrics@) =~= head + tail);
            Ok(metrics)
        },
        Err(cause) => Err(ApiError::InternalServerError(cause)),
    }
}

} // verus!
