use kata_block::ch::config::NetworkConfig;
use kata_block::dragonball::{
    balloon_delay, build_dragonball_network_config, Dragonball, DragonballBackend, BALLOON_DELAY,
};
use kata_block::metrics::{
    get_hypervisor_metrics, metric_name, set_gauge_vec_proc_io, set_gauge_vec_proc_stat,
    set_gauge_vec_proc_status, Gather, Gathered, ProcIo, ProcStat, ProcStatus, Sample,
};
use kata_block::netns::{generate_netns_name, netns_name, task_netns_path};
use kata_block::path::{file_name, join_path};
use kata_block::text::split_text;
use procfs::process::Process;
use prometheus::{Encoder, Gauge, GaugeVec, Opts, Registry, TextEncoder};

#[test]
fn test_generate_netns_name() {
    let name1 = generate_netns_name();
    let name2 = generate_netns_name();
    let name3 = generate_netns_name();
    assert_ne!(name1, name2);
    assert_ne!(name2, name3);
    assert_ne!(name1, name3);
}

/// Different bytes give different names.
#[test]
fn netns_names_differ() {
    let mut bytes = [0_u8; 16];
    for (i, byte) in bytes.iter_mut().enumerate() {
        *byte = 0x11 * i as u8;
    }
    let name = netns_name(&bytes);
    assert_eq!(name, "cnitest-00112233-4455-6677-8899-aabbccddeeff");
    bytes[15] = 0;
    assert_ne!(name, netns_name(&bytes));
    assert_eq!(task_netns_path(12, 34), "/proc/12/task/34/ns/net");
}

#[test]
fn test_dragonball_disables_agent_metrics() {
    assert!(!Dragonball::new().is_agent_metrics_supported());
}

#[test]
fn test_get_hypervisor_metrics_for_zero_pid_is_empty() {
    assert_eq!(get_hypervisor_metrics(0, Gathered::NotYet).unwrap().unwrap(), "");
}

#[test]
fn metrics_are_gathered_for_a_process() {
    assert_eq!(get_hypervisor_metrics(7, Gathered::NotYet).unwrap_err(), Gather { pid: 7 });
    assert_eq!(get_hypervisor_metrics(7, Gathered::NoProcess).unwrap().unwrap(), "");
    let text = Gathered::Text("kata_hypervisor_threads 3".to_string());
    assert_eq!(
        get_hypervisor_metrics(7, text).unwrap().unwrap(),
        "kata_hypervisor_threads 3"
    );
    assert_eq!(
        get_hypervisor_metrics(i32::MAX as u32, Gathered::NotYet).unwrap_err(),
        Gather { pid: i32::MAX }
    );
    for pid in [i32::MAX as u32 + 1, u32::MAX] {
        assert_eq!(get_hypervisor_metrics(pid, Gathered::NotYet).unwrap().unwrap(), "");
    }
    assert_eq!(metric_name("proc_status"), "kata_hypervisor_proc_status");
}

#[test]
fn process_values_keep_their_names() {
    let status = ProcStatus {
        vmpeak: None,
        vmsize: Some(2),
        vmlck: None,
        vmpin: None,
        vmhwm: None,
        vmrss: Some(77),
        rssanon: None,
        rssfile: None,
        rssshmem: None,
        vmdata: None,
        vmstk: None,
        vmexe: None,
        vmlib: None,
        vmpte: None,
        vmswap: None,
        hugetlbpages: None,
        voluntary_ctxt_switches: Some(5),
        nonvoluntary_ctxt_switches: Some(6),
    };
    let samples = set_gauge_vec_proc_status(&status);
    assert_eq!(samples.len(), 18);
    assert_eq!((samples[0].item, samples[0].value), ("vmpeak", 0));
    assert_eq!((samples[5].item, samples[5].value), ("vmrss", 77));
    assert_eq!((samples[17].item, samples[17].value), ("nonvoluntary_ctxt_switches", 6));

    let stat = ProcStat { utime: 1, stime: 2, cutime: -3, cstime: 4 };
    let values: Vec<_> =
        set_gauge_vec_proc_stat(&stat).iter().map(|s| (s.item, s.value)).collect();
    assert_eq!(values, [("utime", 1), ("stime", 2), ("cutime", -3), ("cstime", 4)]);

    let io = ProcIo {
        rchar: 1,
        wchar: 2,
        syscr: 3,
        syscw: 4,
        read_bytes: 5,
        write_bytes: 6,
        cancelled_write_bytes: u64::MAX,
    };
    let last = set_gauge_vec_proc_io(&io)[6];
    assert_eq!((last.item, last.value), ("cancelled_write_bytes", u64::MAX as i128));
}

#[test]
fn dragonball_interface_has_a_pair_at_least() {
    let mut config = NetworkConfig {
        host_dev_name: "tap0".to_string(),
        virt_iface_name: "eth0".to_string(),
        queue_size: 65_537,
        queue_num: 0,
        guest_mac: Some([2, 0, 0, 0, 0, 9]),
        allow_duplicate_mac: true,
        use_shared_irq: Some(true),
        use_generic_irq: None,
    };
    let dragonball = build_dragonball_network_config(false, &config);
    assert_eq!(dragonball.num_queues, Some(2));
    assert_eq!(dragonball.queue_size, Some(1));
    assert_eq!(dragonball.use_shared_irq, Some(true));
    match dragonball.backend {
        DragonballBackend::Vhost(virtio) => {
            assert_eq!(virtio.iface_id, "eth0");
            assert_eq!(virtio.host_dev_name, "tap0");
            assert!(virtio.allow_duplicate_mac);
        }
        other => panic!("unexpected backend {:?}", other),
    }
    config.queue_num = 3;
    let dragonball = build_dragonball_network_config(true, &config);
    assert_eq!(dragonball.num_queues, Some(6));
    assert!(matches!(dragonball.backend, DragonballBackend::Virtio(_)));
}

#[test]
fn paths_are_joined_and_taken_apart() {
    assert_eq!(join_path("/run/vm", "a.sock"), "/run/vm/a.sock");
    assert_eq!(join_path("/run/vm/", "a.sock"), "/run/vm/a.sock");
    assert_eq!(join_path("/run/vm", "/a.sock"), "/a.sock");
    assert_eq!(file_name("/run/vm/a.sock").as_deref(), Some("a.sock"));
    assert_eq!(file_name("/run/vm/a.sock/").as_deref(), Some("a.sock"));
    assert_eq!(file_name("/"), None);
    assert_eq!(file_name(".."), None);
}

/// Cutting a text apart undoes putting its pieces together.
#[test]
fn splitting_undoes_joining() {
    let pieces = ["0000", "", "0b.0"];
    assert_eq!(split_text(&pieces.join(":"), ':'), pieces);
    assert_eq!(split_text("", ':'), [""]);
}

/// The balloon waits for the guest, and only where memory is reclaimed.
#[test]
fn balloon_waits_for_the_guest() {
    assert_eq!(BALLOON_DELAY, 5);
    assert_eq!(balloon_delay(true, true), Some(5));
    assert_eq!(balloon_delay(true, false), None);
    assert_eq!(balloon_delay(false, true), None);
}

fn gauges(registry: &Registry, what: &str, samples: &[Sample]) {
    let gauges = GaugeVec::new(Opts::new(metric_name(what), "Samples."), &["item"]).unwrap();
    for sample in samples {
        gauges.with_label_values(&[sample.item]).set(sample.value as f64);
    }
    registry.register(Box::new(gauges)).unwrap();
}

/// Reads a process and writes its metrics down.
fn gather(pid: i32) -> Gathered {
    let process = match Process::new(pid) {
        Ok(process) => process,
        Err(_) => return Gathered::NoProcess,
    };
    let registry = Registry::new();
    let stat = process.stat().unwrap();
    let threads = Gauge::new(metric_name("threads"), "Threads.").unwrap();
    threads.set(stat.num_threads as f64);
    registry.register(Box::new(threads)).unwrap();
    let status = process.status().unwrap();
    let status = ProcStatus {
        vmpeak: status.vmpeak,
        vmsize: status.vmsize,
        vmlck: status.vmlck,
        vmpin: status.vmpin,
        vmhwm: status.vmhwm,
        vmrss: status.vmrss,
        rssanon: status.rssanon,
        rssfile: status.rssfile,
        rssshmem: status.rssshmem,
        vmdata: status.vmdata,
        vmstk: status.vmstk,
        vmexe: status.vmexe,
        vmlib: status.vmlib,
        vmpte: status.vmpte,
        vmswap: status.vmswap,
        hugetlbpages: status.hugetlbpages,
        voluntary_ctxt_switches: status.voluntary_ctxt_switches,
        nonvoluntary_ctxt_switches: status.nonvoluntary_ctxt_switches,
    };
    gauges(&registry, "proc_status", &set_gauge_vec_proc_status(&status));
    let stat = ProcStat {
        utime: stat.utime,
        stime: stat.stime,
        cutime: stat.cutime,
        cstime: stat.cstime,
    };
    gauges(&registry, "proc_stat", &set_gauge_vec_proc_stat(&stat));
    let mut buffer = Vec::new();
    TextEncoder::new().encode(&registry.gather(), &mut buffer).unwrap();
    Gathered::Text(String::from_utf8(buffer).unwrap())
}

#[test]
fn test_get_hypervisor_metrics_for_current_process() {
    let pid = Process::myself().unwrap().pid() as u32;
    let wanted = get_hypervisor_metrics(pid, Gathered::NotYet).unwrap_err();
    let metrics = get_hypervisor_metrics(pid, gather(wanted.pid)).unwrap().unwrap();
    assert!(
        metrics.contains("kata_hypervisor_proc_status"),
        "expected proc_status metrics, got: {}",
        metrics
    );
    assert!(metrics.contains(r#"item="vmrss""#), "expected vmrss label, got: {}", metrics);
    assert!(
        metrics.contains("kata_hypervisor_threads"),
        "expected threads metric, got: {}",
        metrics
    );
}
