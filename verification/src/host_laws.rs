//! What holds of what is read from the host and told of it: metrics, names and network backends.
use crate::ch::config::NetworkConfig;
use crate::dragonball::{carries, DragonballBackend};
use crate::metrics::{metrics_of, status_samples, Gathered, ProcStatus};
use crate::netns::{hex_text, netns_name_of};
use crate::qmp::session::Flow;
use crate::text::digit_char;
use vstd::prelude::*;

verus! {

/// The metrics of a process are gathered exactly where its number can be that of a process, and what
/// was gathered comes out as it is. Without a process there is nothing.
pub proof fn law_metrics_are_those_of_the_process(pid: u32, text: String)
    ensures
        1 <= pid <= 2_147_483_647 ==> metrics_of(pid, Gathered::NotYet) == Flow::<
            Seq<char>,
            int,
        >::Waiting(pid as int),
        1 <= pid <= 2_147_483_647 ==> metrics_of(pid, Gathered::Text(text)) == Flow::<
            Seq<char>,
            int,
        >::Done(Ok(text@)),
        metrics_of(pid, Gathered::NoProcess) == Flow::<Seq<char>, int>::Done(Ok(seq![])),
        pid == 0 || pid > 2_147_483_647 ==> metrics_of(pid, Gathered::NotYet) == Flow::<
            Seq<char>,
            int,
        >::Done(Ok(seq![])),
{
}

/// Whether the values of a metric have that item with that value, or with zero where it is missing.
pub open spec fn tells(samples: Seq<(Seq<char>, int)>, item: Seq<char>, value: Option<u64>) -> bool {
    match value {
        Some(value) => samples.contains((item, value as int)),
        None => samples.contains((item, 0)),
    }
}

/// The status of a process is told item by item, each under its own name.
pub proof fn law_status_is_told_item_by_item(s: ProcStatus)
    ensures
        ({
            let told = status_samples(s);
            &&& told.len() == 18
            &&& tells(told, "vmpeak"@, s.vmpeak)
            &&& tells(told, "vmsize"@, s.vmsize)
            &&& tells(told, "vmlck"@, s.vmlck)
            &&& tells(told, "vmpin"@, s.vmpin)
            &&& tells(told, "vmhwm"@, s.vmhwm)
            &&& tells(told, "vmrss"@, s.vmrss)
            &&& tells(told, "rssanon"@, s.rssanon)
            &&& tells(told, "rssfile"@, s.rssfile)
            &&& tells(told, "rssshmem"@, s.rssshmem)
            &&& tells(told, "vmdata"@, s.vmdata)
            &&& tells(told, "vmstk"@, s.vmstk)
            &&& tells(told, "vmexe"@, s.vmexe)
            &&& tells(told, "vmlib"@, s.vmlib)
            &&& tells(told, "vmpte"@, s.vmpte)
            &&& tells(told, "vmswap"@, s.vmswap)
            &&& tells(told, "hugetlbpages"@, s.hugetlbpages)
            &&& tells(told, "voluntary_ctxt_switches"@, s.voluntary_ctxt_switches)
            &&& tells(told, "nonvoluntary_ctxt_switches"@, s.nonvoluntary_ctxt_switches)
        }),
{
    let told = status_samples(s);
    assert(told[0].0 == "vmpeak"@);
    assert(told[1].0 == "vmsize"@);
    assert(told[2].0 == "vmlck"@);
    assert(told[3].0 == "vmpin"@);
    assert(told[4].0 == "vmhwm"@);
    assert(told[5].0 == "vmrss"@);
    assert(told[6].0 == "rssanon"@);
    assert(told[7].0 == "rssfile"@);
    assert(told[8].0 == "rssshmem"@);
    assert(told[9].0 == "vmdata"@);
    assert(told[10].0 == "vmstk"@);
    assert(told[11].0 == "vmexe"@);
    assert(told[12].0 == "vmlib"@);
    assert(told[13].0 == "vmpte"@);
    assert(told[14].0 == "vmswap"@);
    assert(told[15].0 == "hugetlbpages"@);
    assert(told[16].0 == "voluntary_ctxt_switches"@);
    assert(told[17].0 == "nonvoluntary_ctxt_switches"@);
}

/// The digits are those of the decimal system, and the first six letters after them.
pub proof fn law_digits_are_in_order(value: int)
    requires
        0 <= value < 16,
    ensures
        digit_char(value) == "0123456789abcdef"@[value],
{
    reveal_strlit("0123456789abcdef");
}

/// Each byte is two digits of the text, the high one first.
pub proof fn law_byte_is_two_digits(bytes: Seq<u8>, i: int)
    requires
        0 <= i < bytes.len(),
    ensures
        hex_text(bytes).len() == 2 * bytes.len(),
        hex_text(bytes)[2 * i] == digit_char(bytes[i] as int / 16),
        hex_text(bytes)[2 * i + 1] == digit_char(bytes[i] as int % 16),
    decreases bytes.len(),
{
    let front = bytes.drop_last();
    if front.len() > 0 {
        law_byte_is_two_digits(
            front,
            if i < front.len() {
                i
            } else {
                0
            },
        );
    } else {
        assert(hex_text(front).len() == 0);
    }
    assert(hex_text(front).len() == 2 * front.len());
    if i < front.len() {
        assert(bytes[i] == front[i]);
    }
}

/// The name of a network namespace is the prefix and five groups of digits, of eight, four, four, four
/// and twelve.
pub proof fn law_netns_name_has_five_groups(bytes: Seq<u8>)
    requires
        bytes.len() == 16,
    ensures
        ({
            let name = netns_name_of(bytes);
            &&& name.len() == 44
            &&& name.take(8) == "cnitest-"@
            &&& name.subrange(8, 16) == hex_text(bytes.subrange(0, 4))
            &&& name[16] == '-'
            &&& name.subrange(17, 21) == hex_text(bytes.subrange(4, 6))
            &&& name[21] == '-'
            &&& name.subrange(22, 26) == hex_text(bytes.subrange(6, 8))
            &&& name[26] == '-'
            &&& name.subrange(27, 31) == hex_text(bytes.subrange(8, 10))
            &&& name[31] == '-'
            &&& name.subrange(32, 44) == hex_text(bytes.subrange(10, 16))
        }),
{
    reveal_strlit("cnitest-");
    reveal_strlit("-");
    law_byte_is_two_digits(bytes.subrange(0, 4), 0);
    law_byte_is_two_digits(bytes.subrange(4, 6), 0);
    law_byte_is_two_digits(bytes.subrange(6, 8), 0);
    law_byte_is_two_digits(bytes.subrange(8, 10), 0);
    law_byte_is_two_digits(bytes.subrange(10, 16), 0);
    let name = netns_name_of(bytes);
    assert(name.take(8) =~= "cnitest-"@);
    assert(name.subrange(8, 16) =~= hex_text(bytes.subrange(0, 4)));
    assert(name.subrange(17, 21) =~= hex_text(bytes.subrange(4, 6)));
    assert(name.subrange(22, 26) =~= hex_text(bytes.subrange(6, 8)));
    assert(name.subrange(27, 31) =~= hex_text(bytes.subrange(8, 10)));
    assert(name.subrange(32, 44) =~= hex_text(bytes.subrange(10, 16)));
}

/// A backend that carries the packets of an interface is the one that is asked for, over the device
/// of the host and under the name that the guest knows.
pub proof fn law_backend_is_the_one_asked_for(
    backend: DragonballBackend,
    vhost: bool,
    config: NetworkConfig,
)
    requires
        carries(backend, vhost, config),
    ensures
        match backend {
            DragonballBackend::Vhost(virtio) => vhost && virtio.host_dev_name@
                == config.host_dev_name@ && virtio.iface_id@ == config.virt_iface_name@
                && virtio.allow_duplicate_mac == config.allow_duplicate_mac,
            DragonballBackend::Virtio(virtio) => !vhost && virtio.host_dev_name@
                == config.host_dev_name@ && virtio.iface_id@ == config.virt_iface_name@
                && virtio.allow_duplicate_mac == config.allow_duplicate_mac,
        },
{
}

} // verus!
