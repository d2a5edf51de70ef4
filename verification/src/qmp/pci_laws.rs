//! Where PCI devices are put, and how they are found again.
use crate::error::ErrorModel;
use crate::pci_path::path_of;
use crate::qmp::block_laws::replying;
use crate::qmp::pci::{
    block_pci_target, bridges_initialized, device_path, first_free, free_among, free_on_bridges,
    free_on_buses, free_slot, law_first_free, pci_target_selected, root_port_path, slots_on_buses,
    slots_to, BridgeModel,
};
use crate::qmp::session::{taken, Flow, QmpModel};
use crate::qmp::wire::{CommandModel, PciDevice, QmpReply, QomValue};
use crate::text::{after_prefix, begins_with, dec, number_in};
use crate::text_laws::{law_decimal_text_is_read_back, law_prefix_is_taken_off};
use vstd::prelude::*;

verus! {

/// Whether slots lead from a bus to the device of that id: the first slot is that of a device on the
/// bus, which is the device itself where there is no other slot, and otherwise a bridge to a bus
/// from which the other slots lead there.
pub open spec fn leads_to(devices: Seq<PciDevice>, slots: Seq<i64>, id: Seq<char>) -> bool
    decreases slots.len(),
{
    slots.len() > 0 && exists|i: int|
        0 <= i < devices.len() && (#[trigger] devices[i]).slot == slots[0] && if slots.len() == 1 {
            devices[i].qdev_id@ == id
        } else {
            devices[i].bridge matches Some(behind) && leads_to(behind@, slots.drop_first(), id)
        }
}

/// Whether no device on a bus or behind it has that id.
pub open spec fn absent(devices: Seq<PciDevice>, id: Seq<char>) -> bool
    decreases devices,
{
    forall|i: int|
        0 <= i < devices.len() ==> (#[trigger] devices[i]).qdev_id@ != id && (
        devices[i].bridge matches Some(behind) ==> absent(behind@, id))
}

proof fn lemma_slots_lead(devices: Seq<PciDevice>, id: Seq<char>)
    ensures
        match slots_to(devices, id) {
            Some(slots) => leads_to(devices, slots, id),
            None => absent(devices, id),
        },
    decreases devices,
{
    if devices.len() > 0 {
        let rest = devices.drop_first();
        if devices[0].qdev_id@ == id {
            assert(devices[0].slot == seq![devices[0].slot][0]);
        } else {
            if let Some(behind) = devices[0].bridge {
                lemma_slots_lead(behind@, id);
                if let Some(slots) = slots_to(behind@, id) {
                    let all = seq![devices[0].slot] + slots;
                    assert(all.drop_first() =~= slots);
                    assert(devices[0].slot == all[0]);
                }
            }
            let found_behind = match devices[0].bridge {
                Some(behind) => slots_to(behind@, id) is Some,
                None => false,
            };
            if !found_behind {
                lemma_slots_lead(rest, id);
                match slots_to(rest, id) {
                    Some(slots) => {
                        lemma_leads_in_rest(devices, slots, id);
                    },
                    None => {
                        assert forall|i: int| 0 <= i < devices.len() implies (
                        #[trigger] devices[i]).qdev_id@ != id && (devices[i].bridge matches Some(
                            behind,
                        ) ==> absent(behind@, id)) by {
                            if i > 0 {
                                assert(rest[i - 1] == devices[i]);
                            }
                        }
                    },
                }
            }
        }
    }
}

proof fn lemma_leads_in_rest(devices: Seq<PciDevice>, slots: Seq<i64>, id: Seq<char>)
    requires
        devices.len() > 0,
        leads_to(devices.drop_first(), slots, id),
    ensures
        leads_to(devices, slots, id),
{
    let rest = devices.drop_first();
    let i = choose|i: int|
        0 <= i < rest.len() && (#[trigger] rest[i]).slot == slots[0] && if slots.len() == 1 {
            rest[i].qdev_id@ == id
        } else {
            rest[i].bridge matches Some(behind) && leads_to(behind@, slots.drop_first(), id)
        };
    assert(devices[i + 1] == rest[i]);
}

proof fn lemma_bus_found(buses: Seq<Vec<PciDevice>>, id: Seq<char>)
    ensures
        match slots_on_buses(buses, id) {
            Some(slots) => exists|i: int|
                0 <= i < buses.len() && leads_to((#[trigger] buses[i])@, slots, id),
            None => forall|i: int| 0 <= i < buses.len() ==> absent((#[trigger] buses[i])@, id),
        },
    decreases buses.len(),
{
    if buses.len() > 0 {
        lemma_slots_lead(buses[0]@, id);
        let rest = buses.drop_first();
        lemma_bus_found(rest, id);
        if slots_to(buses[0]@, id) is None {
            if let Some(slots) = slots_on_buses(rest, id) {
                let i = choose|i: int|
                    0 <= i < rest.len() && leads_to((#[trigger] rest[i])@, slots, id);
                assert(buses[i + 1] == rest[i]);
            } else {
                assert forall|i: int| 0 <= i < buses.len() implies absent((#[trigger] buses[i])@, id) by {
                    if i > 0 {
                        assert(rest[i - 1] == buses[i]);
                    }
                }
            }
        }
    }
}

/// The path of a device is made of slots that lead to it from a bus that QEMU lists. Where no device
/// of that id is listed, on a bus or behind a bridge, there is no path.
pub proof fn law_path_leads_to_the_device(q: QmpModel, buses: Vec<Vec<PciDevice>>, id: Seq<char>)
    ensures
        device_path(replying(q, seq![]), id).1 == Flow::<Seq<u8>, CommandModel>::Waiting(
            CommandModel::QueryPci,
        ),
        match device_path(replying(q, seq![QmpReply::Pci(buses)]), id).1 {
            Flow::Done(Ok(path)) => exists|i: int, slots: Seq<i64>|
                0 <= i < buses@.len() && #[trigger] leads_to(buses@[i]@, slots, id)
                    && slots.len() == path.len() && forall|k: int|
                    0 <= k < path.len() ==> #[trigger] path[k] == slots[k],
            Flow::Done(Err(_)) => (forall|i: int|
                0 <= i < buses@.len() ==> absent((#[trigger] buses@[i])@, id)) || exists|
                i: int,
                slots: Seq<i64>,
            |
                0 <= i < buses@.len() && #[trigger] leads_to(buses@[i]@, slots, id) && path_of(
                    slots,
                ) is Err,
            Flow::Waiting(_) => false,
        },
{
    lemma_bus_found(buses@, id);
    if let Some(slots) = slots_on_buses(buses@, id) {
        let i = choose|i: int| 0 <= i < buses@.len() && leads_to((#[trigger] buses@[i])@, slots, id);
        assert(leads_to(buses@[i]@, slots, id));
    }
}

/// Whether a slot of the bridge of that name is free: the bridge is on the bus or behind it, has the
/// name of a hot-plug bridge, and nothing is behind it in that slot.
pub open spec fn free_in_tree(devices: Seq<PciDevice>, bus: Seq<char>, slot: i64) -> bool
    decreases devices,
{
    exists|i: int|
        0 <= i < devices.len() && {
            ||| (#[trigger] devices[i]).qdev_id@ == bus && begins_with(bus, "pci-bridge-"@) && 1
                <= slot <= 30 && (devices[i].bridge matches Some(behind) ==> forall|k: int|
                0 <= k < behind@.len() ==> (#[trigger] behind@[k]).slot != slot)
            ||| devices[i].bridge matches Some(behind) && free_in_tree(behind@, bus, slot)
        }
}

proof fn lemma_free_among(devices: Seq<PciDevice>)
    ensures
        free_among(devices) matches Some((bus, slot)) ==> free_in_tree(devices, bus, slot),
    decreases devices,
{
    if devices.len() > 0 {
        let device = devices[0];
        let rest = devices.drop_first();
        law_first_free(crate::qmp::pci::slots_behind(device), 1);
        if let Some(slot) = crate::qmp::pci::free_on_device(device) {
            let bus = device.qdev_id@;
            if let Some(behind) = device.bridge {
                assert forall|k: int| 0 <= k < behind@.len() implies (
                #[trigger] behind@[k]).slot != slot by {
                    if behind@[k].slot == slot {
                        assert(crate::qmp::pci::slots_behind(device).contains(slot));
                    }
                }
            }
            assert(devices[0].qdev_id@ == bus);
            assert(free_in_tree(devices, bus, slot));
        } else {
            if let Some(behind) = device.bridge {
                lemma_free_among(behind@);
                if let Some((bus, slot)) = free_among(behind@) {
                    assert(devices[0].bridge == Some(behind));
                    assert(free_in_tree(devices, bus, slot));
                }
            }
            lemma_free_among(rest);
            if let Some((bus, slot)) = free_among(rest) {
                let i = choose|i: int|
                    0 <= i < rest.len() && {
                        ||| (#[trigger] rest[i]).qdev_id@ == bus && begins_with(
                            bus,
                            "pci-bridge-"@,
                        ) && 1 <= slot <= 30 && (rest[i].bridge matches Some(behind) ==> forall|
                            k: int,
                        |
                            0 <= k < behind@.len() ==> (#[trigger] behind@[k]).slot != slot)
                        ||| rest[i].bridge matches Some(behind) && free_in_tree(behind@, bus, slot)
                    };
                assert(devices[i + 1] == rest[i]);
                assert(free_in_tree(devices, bus, slot));
            }
        }
    }
}

proof fn lemma_free_on_buses(buses: Seq<Vec<PciDevice>>)
    ensures
        free_on_buses(buses) matches Some((bus, slot)) ==> exists|i: int|
            0 <= i < buses.len() && free_in_tree((#[trigger] buses[i])@, bus, slot),
    decreases buses.len(),
{
    if buses.len() > 0 {
        lemma_free_among(buses[0]@);
        let rest = buses.drop_first();
        lemma_free_on_buses(rest);
        if free_among(buses[0]@) is None {
            if let Some((bus, slot)) = free_on_buses(rest) {
                let i = choose|i: int|
                    0 <= i < rest.len() && free_in_tree((#[trigger] rest[i])@, bus, slot);
                assert(buses[i + 1] == rest[i]);
            }
        }
    }
}

proof fn lemma_found_if_free(devices: Seq<PciDevice>, bus: Seq<char>, slot: i64)
    requires
        free_in_tree(devices, bus, slot),
    ensures
        free_among(devices) is Some,
    decreases devices,
{
    let i = choose|i: int|
        0 <= i < devices.len() && {
            ||| (#[trigger] devices[i]).qdev_id@ == bus && begins_with(bus, "pci-bridge-"@) && 1
                <= slot <= 30 && (devices[i].bridge matches Some(behind) ==> forall|k: int|
                0 <= k < behind@.len() ==> (#[trigger] behind@[k]).slot != slot)
            ||| devices[i].bridge matches Some(behind) && free_in_tree(behind@, bus, slot)
        };
    let device = devices[0];
    if i > 0 {
        let rest = devices.drop_first();
        assert(rest[i - 1] == devices[i]);
        lemma_found_if_free(rest, bus, slot);
    } else {
        law_first_free(crate::qmp::pci::slots_behind(device), 1);
        if let Some(behind) = device.bridge {
            if free_in_tree(behind@, bus, slot) {
                lemma_found_if_free(behind@, bus, slot);
            }
        }
        if crate::qmp::pci::free_on_device(device) is None && device.qdev_id@ == bus {
            assert(begins_with(bus, "pci-bridge-"@) ==> crate::qmp::pci::slots_behind(
                device,
            ).contains(slot) || !(1 <= slot <= 30));
        }
    }
}

proof fn lemma_found_if_free_on_a_bus(
    buses: Seq<Vec<PciDevice>>,
    i: int,
    bus: Seq<char>,
    slot: i64,
)
    requires
        0 <= i < buses.len(),
        free_in_tree(buses[i]@, bus, slot),
    ensures
        free_on_buses(buses) is Some,
    decreases buses.len(),
{
    if i == 0 {
        lemma_found_if_free(buses[0]@, bus, slot);
    } else {
        let rest = buses.drop_first();
        assert(rest[i - 1] == buses[i]);
        lemma_found_if_free_on_a_bus(rest, i - 1, bus, slot);
    }
}

/// A slot is found wherever one is free: on a bridge that is known, or else on one that QEMU lists,
/// however far behind other bridges.
pub proof fn law_free_slot_is_found(
    q: QmpModel,
    buses: Vec<Vec<PciDevice>>,
    i: int,
    bus: Seq<char>,
    slot: i64,
)
    requires
        0 <= i < buses@.len(),
        free_in_tree(buses@[i]@, bus, slot),
    ensures
        free_slot(replying(q, seq![QmpReply::Pci(buses)])).1 matches Flow::Done(Ok(_)),
{
    lemma_found_if_free_on_a_bus(buses@, i, bus, slot);
}

proof fn lemma_free_on_bridges(bridges: Seq<BridgeModel>, index: int)
    requires
        0 <= index,
    ensures
        match free_on_bridges(bridges, index) {
            Some((bus, slot)) => exists|i: int|
                index <= i < bridges.len() && bus == "pci-bridge-"@ + dec(i) && 1 <= slot <= 30
                    && !(#[trigger] bridges[i]).contains_key(slot) && (forall|s: i64|
                    1 <= s < slot ==> bridges[i].contains_key(s)) && forall|j: int, s: i64|
                    index <= j < i && 1 <= s <= 30 ==> #[trigger] bridges[j].contains_key(s),
            None => forall|j: int, s: i64|
                index <= j < bridges.len() && 1 <= s <= 30 ==> #[trigger] bridges[j].contains_key(
                    s,
                ),
        },
    decreases bridges.len() - index,
{
    if index < bridges.len() {
        law_first_free(bridges[index].dom(), 1);
        match first_free(bridges[index].dom(), 1) {
            Some(slot) => {
                assert(!bridges[index].contains_key(slot));
            },
            None => {
                lemma_free_on_bridges(bridges, index + 1);
                if let Some((bus, slot)) = free_on_bridges(bridges, index + 1) {
                    let i = choose|i: int|
                        index + 1 <= i < bridges.len() && bus == "pci-bridge-"@ + dec(i) && 1
                            <= slot <= 30 && !(#[trigger] bridges[i]).contains_key(slot) && (
                        forall|s: i64| 1 <= s < slot ==> bridges[i].contains_key(s)) && forall|
                            j: int,
                            s: i64,
                        |
                            index + 1 <= j < i && 1 <= s <= 30
                                ==> #[trigger] bridges[j].contains_key(s);
                    assert(!bridges[i].contains_key(slot));
                }
            },
        }
    }
}

/// A device goes into the first free hot-plug slot, from 1 to 30, of the first bridge that has one.
/// QEMU is asked for its bridges only where every slot of the bridges that are known is taken, and
/// then a slot of a listed bridge is found that nothing is in.
pub proof fn law_slot_is_the_first_free_one(q: QmpModel)
    ensures
        match free_slot(q).1 {
            Flow::Done(Ok((bus, slot))) => {
                ||| exists|i: int|
                    0 <= i < q.bridges.len() && bus == "pci-bridge-"@ + dec(i) && 1 <= slot <= 30
                        && !(#[trigger] q.bridges[i]).contains_key(slot) && (forall|s: i64|
                        1 <= s < slot ==> q.bridges[i].contains_key(s)) && forall|j: int, s: i64|
                        0 <= j < i && 1 <= s <= 30 ==> #[trigger] q.bridges[j].contains_key(s)
                ||| (forall|j: int, s: i64|
                    0 <= j < q.bridges.len() && 1 <= s <= 30
                        ==> #[trigger] q.bridges[j].contains_key(s)) && q.replies.len() > 0 && (
                q.replies[0] matches QmpReply::Pci(buses) && exists|i: int|
                    0 <= i < buses@.len() && free_in_tree((#[trigger] buses@[i])@, bus, slot))
            },
            Flow::Waiting(command) => command == CommandModel::QueryPci && forall|j: int, s: i64|
                0 <= j < q.bridges.len() && 1 <= s <= 30 ==> #[trigger] q.bridges[j].contains_key(
                    s,
                ),
            Flow::Done(Err(_)) => forall|j: int, s: i64|
                0 <= j < q.bridges.len() && 1 <= s <= 30 ==> #[trigger] q.bridges[j].contains_key(
                    s,
                ),
        },
{
    lemma_free_on_bridges(q.bridges, 0);
    if q.replies.len() > 0 {
        if let QmpReply::Pci(buses) = q.replies[0] {
            lemma_free_on_buses(buses@);
        }
    }
}

/// A block device that is given a root port goes there, into the first slot, and no bridge is looked
/// at; the port has to be named by `rp` and a number. One without a root port goes onto a bridge.
pub proof fn law_root_port_is_taken_as_given(q: QmpModel, root_port: Seq<char>)
    ensures
        pci_target_selected(q, Some(root_port)).0 == q,
        match pci_target_selected(q, Some(root_port)).1 {
            Flow::Done(Ok((bus, slot, on_bridge))) => {
                &&& bus == root_port
                &&& slot == 0
                &&& !on_bridge
                &&& begins_with(root_port, "rp"@)
                &&& after_prefix(root_port, "rp"@) matches Some(number) && number_in(
                    number,
                    u32::MAX as nat,
                ) is Ok
            },
            Flow::Done(Err(_)) => !begins_with(root_port, "rp"@) || (after_prefix(
                root_port,
                "rp"@,
            ) matches Some(number) && number_in(number, u32::MAX as nat) is Err),
            Flow::Waiting(_) => false,
        },
        pci_target_selected(q, None).1 matches Flow::Done(Ok((bus, slot, on_bridge))) ==> on_bridge
            && free_slot(q).1 == Flow::<(Seq<char>, i64), CommandModel>::Done(Ok((bus, slot))),
        free_slot(q).1 matches Flow::Done(Ok((bus, slot))) ==> pci_target_selected(q, None).1
            == Flow::<(Seq<char>, i64, bool), CommandModel>::Done(Ok((bus, slot, true))),
{
}

/// A device behind a root port is looked up in three steps: the bus that it is on, which has to be
/// that of the port, its address, and the address of the port. Its path is the slot of the port, then
/// its own.
pub proof fn law_root_port_path_is_port_then_device(
    q: QmpModel,
    id: Seq<char>,
    root_port: Seq<char>,
    bus: String,
    device_addr: i64,
    root_addr: i64,
)
    ensures
        ({
            let run = |replies: Seq<QmpReply>| root_port_path(replying(q, replies), id, root_port).1;
            let on = QmpReply::Value(QomValue::Text(bus));
            let at = QmpReply::Value(QomValue::Integer(device_addr));
            let port = QmpReply::Value(QomValue::Integer(root_addr));
            let expected = "/machine/peripheral/"@ + root_port + "/"@ + root_port;
            &&& run(seq![]) == Flow::<Seq<u8>, CommandModel>::Waiting(
                CommandModel::QomGet {
                    path: "/machine/peripheral/"@ + id,
                    property: "parent_bus"@,
                },
            )
            &&& bus@ != expected ==> (run(seq![on]) matches Flow::Done(Err(_)))
            &&& bus@ == expected ==> run(seq![on]) == Flow::<Seq<u8>, CommandModel>::Waiting(
                CommandModel::QomGet { path: "/machine/peripheral/"@ + id, property: "addr"@ },
            )
            &&& bus@ == expected ==> run(seq![on, at]) == Flow::<Seq<u8>, CommandModel>::Waiting(
                CommandModel::QomGet {
                    path: "/machine/peripheral/"@ + root_port,
                    property: "addr"@,
                },
            )
            &&& bus@ == expected && (device_addr < 0 || root_addr < 0) ==> (run(
                seq![on, at, port],
            ) matches Flow::Done(Err(_)))
            &&& bus@ == expected && 0 <= device_addr < 256 && 0 <= root_addr < 256 ==> (run(
                seq![on, at, port],
            ) matches Flow::Done(Ok(path)) && path.len() == 2 && path[0] == root_addr as int / 8
                && path[1] == device_addr as int / 8)
        }),
{
    let on = QmpReply::Value(QomValue::Text(bus));
    let at = QmpReply::Value(QomValue::Integer(device_addr));
    let port = QmpReply::Value(QomValue::Integer(root_addr));
    assert(seq![on].drop_first() =~= seq![]);
    assert(seq![on, at].drop_first() =~= seq![at]);
    assert(seq![at].drop_first() =~= seq![]);
    assert(seq![on, at, port].drop_first() =~= seq![at, port]);
    assert(seq![at, port].drop_first() =~= seq![port]);
    assert(seq![port].drop_first() =~= seq![]);
}

/// Bridges that are set up have every slot free; those beyond are as they were.
pub proof fn law_fresh_bridges_are_free(bridges: Seq<BridgeModel>, count: int, i: int)
    requires
        0 <= count,
    ensures
        bridges_initialized(bridges, count).len() >= count,
        bridges_initialized(bridges, count).len() >= bridges.len(),
        bridges_initialized(bridges, count).len() == count || bridges_initialized(
            bridges,
            count,
        ).len() == bridges.len(),
        0 <= i < count ==> bridges_initialized(bridges, count)[i].dom() =~= Set::empty(),
        count <= i < bridges.len() ==> bridges_initialized(bridges, count)[i] == bridges[i],
{
}

/// A root port is the target as it is named, in its only slot, and not on a bridge. Without one the
/// target is the place that was found on a bridge.
pub proof fn law_target_is_the_root_port_or_a_bridge(
    number: u32,
    bus: Seq<char>,
    slot: i64,
    bridge: Result<(Seq<char>, i64), ErrorModel>,
    error: ErrorModel,
)
    ensures
        block_pci_target(Some("rp"@ + dec(number as int)), bridge) == Ok::<
            (Seq<char>, i64, bool),
            ErrorModel,
        >(("rp"@ + dec(number as int), 0, false)),
        block_pci_target(None, Ok((bus, slot))) == Ok::<(Seq<char>, i64, bool), ErrorModel>(
            (bus, slot, true),
        ),
        block_pci_target(None, Err(error)) == Err::<(Seq<char>, i64, bool), ErrorModel>(error),
        !begins_with(bus, "rp"@) ==> block_pci_target(Some(bus), bridge) is Err,
{
    let port = "rp"@ + dec(number as int);
    law_prefix_is_taken_off("rp"@, dec(number as int));
    law_decimal_text_is_read_back(number as nat, u32::MAX as nat);
}

} // verus!
