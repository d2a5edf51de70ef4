//! The metrics of a hypervisor process.
use crate::error::Error;
use crate::qmp::session::{flow, Flow};
use crate::text::cat3;
use vstd::prelude::*;

verus! {

/// What the name of every metric begins with.
pub const NAMESPACE_KATA_HYPERVISOR: &'static str = "kata_hypervisor";

/// The name of a metric.
pub fn metric_name(what: &str) -> (r: String)
    ensures
        r@ == NAMESPACE_KATA_HYPERVISOR@ + "_"@ + what@,
{
    cat3(NAMESPACE_KATA_HYPERVISOR, "_", what)
}

/// One value of a metric that has several.
#[derive(Clone, Copy, Debug, PartialEq, Eq)]
pub struct Sample {
    pub item: &'static str,
    pub value: i128,
}

/// The item and the value of a [`Sample`].
pub type SampleModel = (Seq<char>, int);

impl DeepView for Sample {
    type V = SampleModel;

    open spec fn deep_view(&self) -> SampleModel {
        (self.item@, self.value as int)
    }
}

fn sample(item: &'static str, value: u64) -> (r: Sample)
    ensures
        r.deep_view() == (item@, value as int),
{
    Sample { item, value: value as i128 }
}

/// The status of a process; what the kernel does not tell is missing.
#[derive(Clone, Debug)]
pub struct ProcStatus {
    pub vmpeak: Option<u64>,
    pub vmsize: Option<u64>,
    pub vmlck: Option<u64>,
    pub vmpin: Option<u64>,
    pub vmhwm: Option<u64>,
    pub vmrss: Option<u64>,
    pub rssanon: Option<u64>,
    pub rssfile: Option<u64>,
    pub rssshmem: Option<u64>,
    pub vmdata: Option<u64>,
    pub vmstk: Option<u64>,
    pub vmexe: Option<u64>,
    pub vmlib: Option<u64>,
    pub vmpte: Option<u64>,
    pub vmswap: Option<u64>,
    pub hugetlbpages: Option<u64>,
    pub voluntary_ctxt_switches: Option<u64>,
    pub nonvoluntary_ctxt_switches: Option<u64>,
}

/// The number, or zero where it is missing.
pub open spec fn or_zero(value: Option<u64>) -> int {
    match value {
        Some(value) => value as int,
        None => 0,
    }
}

fn given(item: &'static str, value: Option<u64>) -> (r: Sample)
    ensures
        r.deep_view() == (item@, or_zero(value)),
{
    match value {
        Some(value) => sample(item, value),
        None => sample(item, 0),
    }
}

/// The values of the status metric.
pub open spec fn status_samples(s: ProcStatus) -> Seq<SampleModel> {
    seq![
        ("vmpeak"@, or_zero(s.vmpeak)),
        ("vmsize"@, or_zero(s.vmsize)),
        ("vmlck"@, or_zero(s.vmlck)),
        ("vmpin"@, or_zero(s.vmpin)),
        ("vmhwm"@, or_zero(s.vmhwm)),
        ("vmrss"@, or_zero(s.vmrss)),
        ("rssanon"@, or_zero(s.rssanon)),
        ("rssfile"@, or_zero(s.rssfile)),
        ("rssshmem"@, or_zero(s.rssshmem)),
        ("vmdata"@, or_zero(s.vmdata)),
        ("vmstk"@, or_zero(s.vmstk)),
        ("vmexe"@, or_zero(s.vmexe)),
        ("vmlib"@, or_zero(s.vmlib)),
        ("vmpte"@, or_zero(s.vmpte)),
        ("vmswap"@, or_zero(s.vmswap)),
        ("hugetlbpages"@, or_zero(s.hugetlbpages)),
        ("voluntary_ctxt_switches"@, or_zero(s.voluntary_ctxt_switches)),
        ("nonvoluntary_ctxt_switches"@, or_zero(s.nonvoluntary_ctxt_switches)),
    ]
}

/// The values of the status metric.
pub fn set_gauge_vec_proc_status(status: &ProcStatus) -> (r: Vec<Sample>)
    ensures
        r.deep_view() == status_samples(*status),
{
    let r = vec![
        given("vmpeak", status.vmpeak),
        given("vmsize", status.vmsize),
        given("vmlck", status.vmlck),
        given("vmpin", status.vmpin),
        given("vmhwm", status.vmhwm),
        given("vmrss", status.vmrss),
        given("rssanon", status.rssanon),
        given("rssfile", status.rssfile),
        given("rssshmem", status.rssshmem),
        given("vmdata", status.vmdata),
        given("vmstk", status.vmstk),
        given("vmexe", status.vmexe),
        given("vmlib", status.vmlib),
        given("vmpte", status.vmpte),
        given("vmswap", status.vmswap),
        given("hugetlbpages", status.hugetlbpages),
        given("voluntary_ctxt_switches", status.voluntary_ctxt_switches),
        given("nonvoluntary_ctxt_switches", status.nonvoluntary_ctxt_switches),
    ];
    assert(r.deep_view() =~= status_samples(*status));
    r
}

/// The times of a process, and those of its children that were waited for.
#[derive(Clone, Debug)]
pub struct ProcStat {
    pub utime: u64,
    pub stime: u64,
    pub cutime: i64,
    pub cstime: i64,
}

/// The values of the statistics metric.
pub fn set_gauge_vec_proc_stat(stat: &ProcStat) -> (r: Vec<Sample>)
    ensures
        r.deep_view() == seq![
            ("utime"@, stat.utime as int),
            ("stime"@, stat.stime as int),
            ("cutime"@, stat.cutime as int),
            ("cstime"@, stat.cstime as int),
        ],
{
    let r = vec![
        sample("utime", stat.utime),
        sample("stime", stat.stime),
        Sample { item: "cutime", value: stat.cutime as i128 },
        Sample { item: "cstime", value: stat.cstime as i128 },
    ];
    assert(r.deep_view() =~= seq![
        ("utime"@, stat.utime as int),
        ("stime"@, stat.stime as int),
        ("cutime"@, stat.cutime as int),
        ("cstime"@, stat.cstime as int),
    ]);
    r
}

/// What a process has read and written.
#[derive(Clone, Debug)]
pub struct ProcIo {
    pub rchar: u64,
    pub wchar: u64,
    pub syscr: u64,
    pub syscw: u64,
    pub read_bytes: u64,
    pub write_bytes: u64,
    pub cancelled_write_bytes: u64,
}

/// The values of the input and output metric.
pub fn set_gauge_vec_proc_io(io_stat: &ProcIo) -> (r: Vec<Sample>)
    ensures
        r.deep_view() == seq![
            ("rchar"@, io_stat.rchar as int),
            ("wchar"@, io_stat.wchar as int),
            ("syscr"@, io_stat.syscr as int),
            ("syscw"@, io_stat.syscw as int),
            ("read_bytes"@, io_stat.read_bytes as int),
            ("write_bytes"@, io_stat.write_bytes as int),
            ("cancelled_write_bytes"@, io_stat.cancelled_write_bytes as int),
        ],
{
    let r = vec![
        sample("rchar", io_stat.rchar),
        sample("wchar", io_stat.wchar),
        sample("syscr", io_stat.syscr),
        sample("syscw", io_stat.syscw),
        sample("read_bytes", io_stat.read_bytes),
        sample("write_bytes", io_stat.write_bytes),
        sample("cancelled_write_bytes", io_stat.cancelled_write_bytes),
    ];
    assert(r.deep_view() =~= seq![
        ("rchar"@, io_stat.rchar as int),
        ("wchar"@, io_stat.wchar as int),
        ("syscr"@, io_stat.syscr as int),
        ("syscw"@, io_stat.syscw as int),
        ("read_bytes"@, io_stat.read_bytes as int),
        ("write_bytes"@, io_stat.write_bytes as int),
        ("cancelled_write_bytes"@, io_stat.cancelled_write_bytes as int),
    ]);
    r
}

/// The process whose metrics are to be gathered.
#[derive(Clone, Copy, Debug, PartialEq, Eq)]
pub struct Gather {
    pub pid: i32,
}

impl DeepView for Gather {
    type V = int;

    open spec fn deep_view(&self) -> int {
        self.pid as int
    }
}

/// What came of gathering the metrics of a process.
#[derive(Clone, Debug)]
pub enum Gathered {
    /// Nothing was gathered yet.
    NotYet,
    /// The process cannot be read.
    NoProcess,
    /// The metrics as text.
    Text(String),
}

/// The metrics of the process `pid`: nothing where there is no such process. No process has a
/// number above that of the greatest signed one.
pub open spec fn metrics_of(pid: u32, gathered: Gathered) -> Flow<Seq<char>, int> {
    if pid == 0 || pid > i32::MAX {
        Flow::Done(Ok(seq![]))
    } else {
        match gathered {
            Gathered::NotYet => Flow::Waiting(pid as int),
            Gathered::NoProcess => Flow::Done(Ok(seq![])),
            Gathered::Text(text) => Flow::Done(Ok(text@)),
        }
    }
}

/// The metrics of the process `pid`: nothing where there is no such process. Where there may be
/// one, they are to be gathered first.
pub fn get_hypervisor_metrics(pid: u32, gathered: Gathered) -> (r: Result<
    Result<String, Error>,
    Gather,
>)
    ensures
        flow(r) == metrics_of(pid, gathered),
{
    if pid == 0 || pid > i32::MAX as u32 {
        let text = String::new();
        assert(text@ =~= seq![]);
        return Ok(Ok(text));
    }
    match gathered {
        Gathered::NotYet => Err(Gather { pid: pid as i32 }),
        Gathered::NoProcess => {
            let text = String::new();
            assert(text@ =~= seq![]);
            Ok(Ok(text))
        },
        Gathered::Text(text) => Ok(Ok(text)),
    }
}

} // verus!
