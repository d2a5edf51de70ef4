//! PCI buses: free hot-plug slots, and the path of a device.
use crate::error::{message, Error, ErrorModel};
use crate::pci_path::{path_of, PciPath};
use crate::qmp::session::{flow, taken, Flow, Qmp, QmpModel, Step};
use crate::qmp::wire::{
    failure_error, same_device, unexpected_reply, CommandModel, FailureModel, PciDevice, QmpCommand,
    QmpError, QmpReply, QomValue,
};
use crate::text::{
    begins_with, cat2, cat4, cat5, chars_of, dec, dec_u64, has_prefix,
    law_decimal_text_is_injective, number_in, parse_number, same, strip_prefix,
};
use vstd::prelude::*;

verus! {

/// The last hot-plug slot of a bridge.
pub const PCI_BRIDGE_MAX_CAPACITY: i64 = 30;

/// The first hot-plug slot of a bridge.
pub const PCI_BRIDGE_FIRST_HOTPLUG_SLOT: i64 = 1;

/// A device in a hot-plug slot.
#[derive(Clone, Debug)]
pub struct Occupant {
    pub slot: i64,
    pub device_id: String,
}

/// The occupied hot-plug slots of a bridge.
#[derive(Clone, Debug)]
pub struct Bridge {
    pub devices: Vec<Occupant>,
}

/// The model of a [`Bridge`]: its occupied slots, with the device in each.
pub type BridgeModel = Map<i64, Seq<char>>;

/// The slots that a list of occupants takes up: of two in one slot, the later counts.
pub open spec fn occupied(devices: Seq<Occupant>) -> BridgeModel
    decreases devices.len(),
{
    if devices.len() == 0 {
        Map::empty()
    } else {
        occupied(devices.drop_last()).insert(devices.last().slot, devices.last().device_id@)
    }
}

impl DeepView for Bridge {
    type V = BridgeModel;

    open spec fn deep_view(&self) -> BridgeModel {
        occupied(self.devices@)
    }
}

/// The name of the bridge of that index.
pub open spec fn bridge_name(index: int) -> Seq<char> {
    "pci-bridge-"@ + dec(index)
}

/// The first slot from `slot` on that is not taken.
pub open spec fn first_free(taken_slots: Set<i64>, slot: int) -> Option<i64>
    decreases PCI_BRIDGE_MAX_CAPACITY + 1 - slot,
{
    if slot > PCI_BRIDGE_MAX_CAPACITY {
        None
    } else if !taken_slots.contains(slot as i64) {
        Some(slot as i64)
    } else {
        first_free(taken_slots, slot + 1)
    }
}

/// A free slot is a hot-plug slot and not taken, and none before it is free; where none comes out,
/// every hot-plug slot is taken.
pub proof fn law_first_free(taken_slots: Set<i64>, slot: int)
    requires
        PCI_BRIDGE_FIRST_HOTPLUG_SLOT <= slot <= PCI_BRIDGE_MAX_CAPACITY + 1,
    ensures
        match first_free(taken_slots, slot) {
            Some(free) => slot <= free <= PCI_BRIDGE_MAX_CAPACITY && !taken_slots.contains(free)
                && forall|s: i64| slot <= s < free ==> taken_slots.contains(s),
            None => forall|s: i64|
                slot <= s <= PCI_BRIDGE_MAX_CAPACITY ==> taken_slots.contains(s),
        },
    decreases PCI_BRIDGE_MAX_CAPACITY + 1 - slot,
{
    if slot <= PCI_BRIDGE_MAX_CAPACITY && taken_slots.contains(slot as i64) {
        law_first_free(taken_slots, slot + 1);
    }
}

/// The first bridge from `index` on that has a free slot, with that slot.
pub open spec fn free_on_bridges(bridges: Seq<BridgeModel>, index: int) -> Option<(Seq<char>, i64)>
    decreases bridges.len() - index,
{
    if index < 0 || index >= bridges.len() {
        None
    } else {
        match first_free(bridges[index].dom(), PCI_BRIDGE_FIRST_HOTPLUG_SLOT as int) {
            Some(slot) => Some((bridge_name(index), slot)),
            None => free_on_bridges(bridges, index + 1),
        }
    }
}

/// The slots that are taken behind a bridge that QEMU lists.
pub open spec fn slots_behind(device: PciDevice) -> Set<i64> {
    match device.bridge {
        Some(devices) => Set::new(
            |slot: i64| exists|i: int| 0 <= i < devices@.len() && (#[trigger] devices@[i]).slot == slot,
        ),
        None => Set::empty(),
    }
}

/// The first free slot of a device, where it is a hot-plug bridge.
pub open spec fn free_on_device(device: PciDevice) -> Option<i64> {
    if begins_with(device.qdev_id@, "pci-bridge-"@) {
        first_free(slots_behind(device), PCI_BRIDGE_FIRST_HOTPLUG_SLOT as int)
    } else {
        None
    }
}

/// The first free slot of a hot-plug bridge among devices and those behind them: each device
/// before those behind it, and those before its neighbour.
pub open spec fn free_among(devices: Seq<PciDevice>) -> Option<(Seq<char>, i64)>
    decreases devices,
{
    if devices.len() == 0 {
        None
    } else {
        match free_on_device(devices[0]) {
            Some(slot) => Some((devices[0].qdev_id@, slot)),
            None => {
                let behind = match devices[0].bridge {
                    Some(children) => free_among(children@),
                    None => None,
                };
                match behind {
                    Some(found) => Some(found),
                    None => free_among(devices.drop_first()),
                }
            },
        }
    }
}

/// The first free slot of a hot-plug bridge on the buses from the first on.
pub open spec fn free_on_buses(buses: Seq<Vec<PciDevice>>) -> Option<(Seq<char>, i64)>
    decreases buses.len(),
{
    if buses.len() == 0 {
        None
    } else {
        match free_among(buses[0]@) {
            Some(found) => Some(found),
            None => free_on_buses(buses.drop_first()),
        }
    }
}

/// The slots that lead to the first device of that id, in the order of [`free_among`].
pub open spec fn slots_to(devices: Seq<PciDevice>, qdev_id: Seq<char>) -> Option<Seq<i64>>
    decreases devices,
{
    if devices.len() == 0 {
        None
    } else if devices[0].qdev_id@ == qdev_id {
        Some(seq![devices[0].slot])
    } else {
        let behind = match devices[0].bridge {
            Some(children) => slots_to(children@, qdev_id),
            None => None,
        };
        match behind {
            Some(slots) => Some(seq![devices[0].slot] + slots),
            None => slots_to(devices.drop_first(), qdev_id),
        }
    }
}

/// The first device of that id, in the order of [`slots_to`].
pub open spec fn device_of(devices: Seq<PciDevice>, qdev_id: Seq<char>) -> Option<PciDevice>
    decreases devices,
{
    if devices.len() == 0 {
        None
    } else if devices[0].qdev_id@ == qdev_id {
        Some(devices[0])
    } else {
        let behind = match devices[0].bridge {
            Some(children) => device_of(children@, qdev_id),
            None => None,
        };
        match behind {
            Some(device) => Some(device),
            None => device_of(devices.drop_first(), qdev_id),
        }
    }
}

/// A device is found exactly where slots lead to it; it has the id that was looked for, and the
/// last of the slots is its own.
pub proof fn law_slots_lead_to_device(devices: Seq<PciDevice>, qdev_id: Seq<char>)
    ensures
        slots_to(devices, qdev_id) is Some <==> device_of(devices, qdev_id) is Some,
        device_of(devices, qdev_id) matches Some(device) ==> device.qdev_id@ == qdev_id
            && slots_to(devices, qdev_id)->0.len() > 0 && slots_to(devices, qdev_id)->0.last()
            == device.slot,
    decreases devices,
{
    if devices.len() > 0 && devices[0].qdev_id@ != qdev_id {
        if let Some(children) = devices[0].bridge {
            law_slots_lead_to_device(children@, qdev_id);
            if let Some(slots) = slots_to(children@, qdev_id) {
                assert((seq![devices[0].slot] + slots).last() == slots.last());
            }
        }
        law_slots_lead_to_device(devices.drop_first(), qdev_id);
    }
}

/// The slots that lead to a device on the buses from the first on.
pub open spec fn slots_on_buses(buses: Seq<Vec<PciDevice>>, qdev_id: Seq<char>) -> Option<Seq<i64>>
    decreases buses.len(),
{
    if buses.len() == 0 {
        None
    } else {
        match slots_to(buses[0]@, qdev_id) {
            Some(slots) => Some(slots),
            None => slots_on_buses(buses.drop_first(), qdev_id),
        }
    }
}

/// What a reply says to `query-pci`.
pub open spec fn pci_in(reply: QmpReply) -> Result<Seq<Vec<PciDevice>>, FailureModel> {
    match reply {
        QmpReply::Pci(buses) => Ok(buses@),
        QmpReply::Failed(error) => Err(error.deep_view()),
        _ => Err(unexpected_reply()),
    }
}

/// A free hot-plug slot: on the bridges that are tracked, or else in the tree that QEMU lists.
pub open spec fn free_slot(q: QmpModel) -> Step<(Seq<char>, i64)> {
    match free_on_bridges(q.bridges, 0) {
        Some(found) => (q, Flow::Done(Ok(found))),
        None => if q.replies.len() == 0 {
            (q, Flow::Waiting(CommandModel::QueryPci))
        } else {
            match pci_in(q.replies[0]) {
                Err(failure) => (taken(q), Flow::Done(Err(failure_error(failure)))),
                Ok(buses) => match free_on_buses(buses) {
                    Some(found) => (taken(q), Flow::Done(Ok(found))),
                    None => (
                        taken(q),
                        Flow::Done(Err(message("no free slots on PCI bridges"@))),
                    ),
                },
            }
        },
    }
}

/// The index of the bridge of that name, or the number of bridges where there is none.
pub open spec fn bridge_index(bridges: Seq<BridgeModel>, bridge_id: Seq<char>, index: int) -> int
    decreases bridges.len() - index,
{
    if index < 0 || index >= bridges.len() {
        bridges.len() as int
    } else if bridge_name(index) == bridge_id {
        index
    } else {
        bridge_index(bridges, bridge_id, index + 1)
    }
}

/// The bridges with a device noted in a slot. A bridge that is not tracked is left alone.
pub open spec fn slot_recorded(
    bridges: Seq<BridgeModel>,
    bridge_id: Seq<char>,
    slot: i64,
    device_id: Seq<char>,
) -> Seq<BridgeModel> {
    let index = bridge_index(bridges, bridge_id, 0);
    if index < bridges.len() {
        bridges.update(index, bridges[index].insert(slot, device_id))
    } else {
        bridges
    }
}

/// The bridge of a name is found under it.
pub proof fn lemma_bridge_found(bridges: Seq<BridgeModel>, index: int, from: int)
    requires
        0 <= from <= index < bridges.len(),
    ensures
        bridge_index(bridges, bridge_name(index), from) == index,
    decreases index - from,
{
    if from < index {
        if bridge_name(from) == bridge_name(index) {
            let head = "pci-bridge-"@.len() as int;
            assert(bridge_name(from).skip(head) =~= dec(from));
            assert(bridge_name(index).skip(head) =~= dec(index));
            law_decimal_text_is_injective(from as nat, index as nat);
        }
        lemma_bridge_found(bridges, index, from + 1);
    }
}

proof fn lemma_free_on_later_bridge(bridges: Seq<BridgeModel>, from: int) -> (index: int)
    requires
        0 <= from,
        free_on_bridges(bridges, from) is Some,
    ensures
        from <= index < bridges.len(),
        first_free(bridges[index].dom(), PCI_BRIDGE_FIRST_HOTPLUG_SLOT as int) is Some,
        free_on_bridges(bridges, from) == Some(
            (
                bridge_name(index),
                first_free(bridges[index].dom(), PCI_BRIDGE_FIRST_HOTPLUG_SLOT as int)->0,
            ),
        ),
    decreases bridges.len() - from,
{
    if first_free(bridges[from].dom(), PCI_BRIDGE_FIRST_HOTPLUG_SLOT as int) is Some {
        from
    } else {
        lemma_free_on_later_bridge(bridges, from + 1)
    }
}

/// A slot that a device takes is not given out again: the next free slot is another one.
pub proof fn law_slot_given_once(bridges: Seq<BridgeModel>, device_id: Seq<char>)
    requires
        free_on_bridges(bridges, 0) is Some,
    ensures
        ({
            let (bus, slot) = free_on_bridges(bridges, 0)->0;
            free_on_bridges(slot_recorded(bridges, bus, slot, device_id), 0) != Some((bus, slot))
        }),
{
    let (bus, slot) = free_on_bridges(bridges, 0)->0;
    let after = slot_recorded(bridges, bus, slot, device_id);
    let index = lemma_free_on_later_bridge(bridges, 0);
    lemma_bridge_found(bridges, index, 0);
    assert(after[index] == bridges[index].insert(slot, device_id));
    if free_on_bridges(after, 0) == Some((bus, slot)) {
        let again = lemma_free_on_later_bridge(after, 0);
        lemma_bridge_found(after, again, 0);
        lemma_bridge_found(after, index, 0);
        law_first_free(after[again].dom(), PCI_BRIDGE_FIRST_HOTPLUG_SLOT as int);
        assert(after[index].dom().contains(slot));
    }
}

/// The bridges with the first `count` of them empty; more are made where there are fewer.
pub open spec fn bridges_initialized(bridges: Seq<BridgeModel>, count: int) -> Seq<BridgeModel> {
    Seq::new(
        (if count > bridges.len() {
            count
        } else {
            bridges.len() as int
        }) as nat,
        |i: int|
            if i < count {
                Map::empty()
            } else {
                bridges[i]
            },
    )
}

/// The path of a device in the tree that QEMU lists.
pub open spec fn device_path(q: QmpModel, qdev_id: Seq<char>) -> Step<Seq<u8>> {
    if q.replies.len() == 0 {
        (q, Flow::Waiting(CommandModel::QueryPci))
    } else {
        match pci_in(q.replies[0]) {
            Err(failure) => (taken(q), Flow::Done(Err(failure_error(failure)))),
            Ok(buses) => match slots_on_buses(buses, qdev_id) {
                Some(slots) => (taken(q), Flow::Done(path_of(slots))),
                None => (taken(q), Flow::Done(Err(message("no target device found"@)))),
            },
        }
    }
}

/// What a reply says to `qom-get`.
pub open spec fn value_in(reply: QmpReply) -> Result<QomValue, FailureModel> {
    match reply {
        QmpReply::Value(value) => Ok(value),
        QmpReply::Failed(error) => Err(error.deep_view()),
        _ => Err(unexpected_reply()),
    }
}

pub open spec fn peripheral(id: Seq<char>) -> Seq<char> {
    "/machine/peripheral/"@ + id
}

/// Reading a property of an object that is to be a PCI address.
pub open spec fn address_read(q: QmpModel, id: Seq<char>) -> Step<i64> {
    if q.replies.len() == 0 {
        (q, Flow::Waiting(CommandModel::QomGet { path: peripheral(id), property: "addr"@ }))
    } else {
        match value_in(q.replies[0]) {
            Err(failure) => (taken(q), Flow::Done(Err(failure_error(failure)))),
            Ok(QomValue::Integer(n)) => (taken(q), Flow::Done(Ok(n))),
            Ok(_) => (
                taken(q),
                Flow::Done(
                    Err(message("QEMU returned a non-integer PCI address for "@ + id)),
                ),
            ),
        }
    }
}

/// Reading the bus that a device is on.
pub open spec fn parent_read(q: QmpModel, id: Seq<char>) -> Step<Seq<char>> {
    if q.replies.len() == 0 {
        (q, Flow::Waiting(CommandModel::QomGet { path: peripheral(id), property: "parent_bus"@ }))
    } else {
        match value_in(q.replies[0]) {
            Err(failure) => (taken(q), Flow::Done(Err(failure_error(failure)))),
            Ok(QomValue::Text(bus)) => (taken(q), Flow::Done(Ok(bus@))),
            Ok(_) => (
                taken(q),
                Flow::Done(
                    Err(message("QEMU returned a non-string parent bus for "@ + id)),
                ),
            ),
        }
    }
}

/// The bus behind a root port.
pub open spec fn root_port_bus(root_port: Seq<char>) -> Seq<char> {
    "/machine/peripheral/"@ + root_port + "/"@ + root_port
}

/// The path of a device behind a root port: the slot of the port, then the slot of the device.
/// The device has to be on the bus of that port.
pub open spec fn root_port_path(q: QmpModel, qdev_id: Seq<char>, root_port: Seq<char>) -> Step<
    Seq<u8>,
> {
    match parent_read(q, qdev_id) {
        (q1, Flow::Waiting(command)) => (q1, Flow::Waiting(command)),
        (q1, Flow::Done(Err(error))) => (q1, Flow::Done(Err(error))),
        (q1, Flow::Done(Ok(bus))) => if bus != root_port_bus(root_port) {
            (
                q1,
                Flow::Done(
                    Err(
                        message(
                            "QEMU attached "@ + qdev_id + " to "@ + bus + ", expected "@
                                + root_port_bus(root_port),
                        ),
                    ),
                ),
            )
        } else {
            match address_read(q1, qdev_id) {
                (q2, Flow::Waiting(command)) => (q2, Flow::Waiting(command)),
                (q2, Flow::Done(Err(error))) => (q2, Flow::Done(Err(error))),
                (q2, Flow::Done(Ok(device_addr))) => match address_read(q2, root_port) {
                    (q3, Flow::Waiting(command)) => (q3, Flow::Waiting(command)),
                    (q3, Flow::Done(Err(error))) => (q3, Flow::Done(Err(error))),
                    (q3, Flow::Done(Ok(root_addr))) => if device_addr < 0 || root_addr < 0 {
                        (
                            q3,
                            Flow::Done(
                                Err(
                                    message(
                                        "QEMU returned a negative PCI address for "@ + qdev_id
                                            + " or "@ + root_port,
                                    ),
                                ),
                            ),
                        )
                    } else {
                        (
                            q3,
                            Flow::Done(
                                path_of(
                                    seq![(root_addr as int / 8) as i64, (device_addr as int / 8) as i64],
                                ),
                            ),
                        )
                    },
                },
            }
        },
    }
}

/// Whether a name is that of a root port: `rp` and a number.
pub open spec fn names_root_port(root_port: Seq<char>) -> bool {
    match crate::text::after_prefix(root_port, "rp"@) {
        Some(index) => number_in(index, u32::MAX as nat) is Ok,
        None => false,
    }
}

/// Where a PCI block device goes: bus, slot, and whether the slot is that of a tracked bridge. A
/// root port that is given is taken; otherwise `bridge` is.
pub open spec fn block_pci_target(
    pcie_root_port: Option<Seq<char>>,
    bridge: Result<(Seq<char>, i64), ErrorModel>,
) -> Result<(Seq<char>, i64, bool), ErrorModel> {
    match pcie_root_port {
        Some(root_port) => if names_root_port(root_port) {
            Ok((root_port, 0, false))
        } else {
            Err(message("invalid PCIe root-port bus "@ + root_port))
        },
        None => match bridge {
            Ok((bus, slot)) => Ok((bus, slot, true)),
            Err(error) => Err(error),
        },
    }
}

/// Choosing where a PCI block device goes. A bridge is looked for only where no root port is
/// given.
pub open spec fn pci_target_selected(q: QmpModel, pcie_root_port: Option<Seq<char>>) -> Step<
    (Seq<char>, i64, bool),
> {
    if pcie_root_port is Some {
        (q, Flow::Done(block_pci_target(pcie_root_port, Err(message(seq![])))))
    } else {
        match free_slot(q) {
            (q1, Flow::Waiting(command)) => (q1, Flow::Waiting(command)),
            (q1, Flow::Done(bridge)) => (q1, Flow::Done(block_pci_target(None, bridge))),
        }
    }
}

fn decode_pci(reply: QmpReply) -> (r: Result<Vec<Vec<PciDevice>>, QmpError>)
    ensures
        match r {
            Ok(buses) => pci_in(reply) == Ok::<Seq<Vec<PciDevice>>, FailureModel>(buses@),
            Err(error) => pci_in(reply) == Err::<Seq<Vec<PciDevice>>, FailureModel>(
                error.deep_view(),
            ),
        },
{
    match reply {
        QmpReply::Pci(buses) => Ok(buses),
        QmpReply::Failed(error) => Err(error),
        _ => Err(QmpError::unexpected()),
    }
}

fn decode_value(reply: QmpReply) -> (r: Result<QomValue, QmpError>)
    ensures
        match r {
            Ok(value) => value_in(reply) == Ok::<QomValue, FailureModel>(value),
            Err(error) => value_in(reply) == Err::<QomValue, FailureModel>(error.deep_view()),
        },
{
    match reply {
        QmpReply::Value(value) => Ok(value),
        QmpReply::Failed(error) => Err(error),
        _ => Err(QmpError::unexpected()),
    }
}

/// Which slots a list of occupants takes up.
proof fn lemma_occupied(devices: Seq<Occupant>, slot: i64)
    ensures
        occupied(devices).contains_key(slot) <==> exists|i: int|
            0 <= i < devices.len() && (#[trigger] devices[i]).slot == slot,
    decreases devices.len(),
{
    if devices.len() > 0 {
        lemma_occupied(devices.drop_last(), slot);
        if exists|i: int| 0 <= i < devices.len() && (#[trigger] devices[i]).slot == slot {
            let i = choose|i: int| 0 <= i < devices.len() && (#[trigger] devices[i]).slot == slot;
            if i < devices.len() - 1 {
                assert(devices.drop_last()[i].slot == slot);
            }
        }
        if occupied(devices.drop_last()).contains_key(slot) {
            let i = choose|i: int|
                0 <= i < devices.drop_last().len() && (#[trigger] devices.drop_last()[i]).slot
                    == slot;
            assert(devices[i].slot == slot);
        }
    }
}

impl Bridge {
    fn is_taken(&self, slot: i64) -> (r: bool)
        ensures
            r == self.deep_view().contains_key(slot),
    {
        let mut i: usize = 0;
        while i < self.devices.len()
            invariant
                0 <= i <= self.devices@.len(),
                forall|j: int| 0 <= j < i ==> (#[trigger] self.devices@[j]).slot != slot,
            decreases self.devices@.len() - i,
        {
            if self.devices[i].slot == slot {
                proof {
                    lemma_occupied(self.devices@, slot);
                }
                return true;
            }
            i = i + 1;
        }
        proof {
            lemma_occupied(self.devices@, slot);
        }
        false
    }

    fn free(&self) -> (r: Option<i64>)
        ensures
            r == first_free(self.deep_view().dom(), PCI_BRIDGE_FIRST_HOTPLUG_SLOT as int),
    {
        let mut slot: i64 = PCI_BRIDGE_FIRST_HOTPLUG_SLOT;
        while slot <= PCI_BRIDGE_MAX_CAPACITY
            invariant
                PCI_BRIDGE_FIRST_HOTPLUG_SLOT <= slot <= PCI_BRIDGE_MAX_CAPACITY + 1,
                first_free(self.deep_view().dom(), PCI_BRIDGE_FIRST_HOTPLUG_SLOT as int)
                    == first_free(self.deep_view().dom(), slot as int),
            decreases PCI_BRIDGE_MAX_CAPACITY + 1 - slot,
        {
            if !self.is_taken(slot) {
                return Some(slot);
            }
            slot = slot + 1;
        }
        None
    }
}

fn bridge_id_of(index: usize) -> (r: String)
    ensures
        r@ == bridge_name(index as int),
{
    cat2("pci-bridge-", dec_u64(index as u64).as_str())
}

/// The first free slot of a device, where it is a hot-plug bridge.
pub fn free_slot_on_pci_bridge(device: &PciDevice) -> (r: Option<i64>)
    ensures
        r == free_on_device(*device),
{
    if !has_prefix(device.qdev_id.as_str(), "pci-bridge-") {
        return None;
    }
    let ghost behind = slots_behind(*device);
    let mut slot: i64 = PCI_BRIDGE_FIRST_HOTPLUG_SLOT;
    while slot <= PCI_BRIDGE_MAX_CAPACITY
        invariant
            PCI_BRIDGE_FIRST_HOTPLUG_SLOT <= slot <= PCI_BRIDGE_MAX_CAPACITY + 1,
            behind == slots_behind(*device),
            begins_with(device.qdev_id@, "pci-bridge-"@),
            first_free(behind, PCI_BRIDGE_FIRST_HOTPLUG_SLOT as int) == first_free(
                behind,
                slot as int,
            ),
        decreases PCI_BRIDGE_MAX_CAPACITY + 1 - slot,
    {
        let is_taken: bool = match &device.bridge {
            Some(devices) => {
                let mut found: bool = false;
                let mut i: usize = 0;
                while i < devices.len() && !found
                    invariant
                        0 <= i <= devices@.len(),
                        found ==> exists|j: int|
                            0 <= j < devices@.len() && (#[trigger] devices@[j]).slot == slot,
                        !found ==> forall|j: int|
                            0 <= j < i ==> (#[trigger] devices@[j]).slot != slot,
                    decreases devices@.len() - i,
                {
                    if devices[i].slot == slot {
                        found = true;
                    }
                    i = i + 1;
                }
                found
            },
            None => false,
        };
        assert(is_taken == behind.contains(slot));
        if !is_taken {
            return Some(slot);
        }
        slot = slot + 1;
    }
    None
}

/// A found slot, as a model.
pub open spec fn found_slot(r: Option<(String, i64)>) -> Option<(Seq<char>, i64)> {
    match r {
        Some((bus, slot)) => Some((bus@, slot)),
        None => None,
    }
}

/// The first free slot of a hot-plug bridge among devices and those behind them.
pub fn find_free_slot_in_pci_devices(devices: &Vec<PciDevice>) -> (r: Option<(String, i64)>)
    ensures
        found_slot(r) == free_among(devices@),
    decreases devices,
{
    let mut i: usize = 0;
    assert(devices@.skip(0) =~= devices@);
    while i < devices.len()
        invariant
            0 <= i <= devices@.len(),
            free_among(devices@) == free_among(devices@.skip(i as int)),
        decreases devices@.len() - i,
    {
        let ghost rest = devices@.skip(i as int);
        assert(rest[0] == devices@[i as int]);
        assert(rest.drop_first() =~= devices@.skip(i + 1));
        if let Some(slot) = free_slot_on_pci_bridge(&devices[i]) {
            return Some((devices[i].qdev_id.clone(), slot));
        }
        if let Some(children) = &devices[i].bridge {
            assert(decreases_to!(devices => devices@[i as int].bridge->0));
            if let Some(found) = find_free_slot_in_pci_devices(children) {
                return Some(found);
            }
        }
        i = i + 1;
    }
    None
}

/// Finds the first device of that id and adds the slots that lead to it to `path`, which is left
/// as it was where there is no such device.
pub fn get_pci_path_by_qdev_id(devices: &Vec<PciDevice>, qdev_id: &str, path: &mut Vec<i64>) -> (r:
    Option<PciDevice>)
    ensures
        match (slots_to(devices@, qdev_id@), device_of(devices@, qdev_id@)) {
            (Some(slots), Some(device)) => r is Some && same_device(r->0, device) && final(path)@
                == old(path)@ + slots,
            _ => r is None && final(path)@ == old(path)@,
        },
    decreases devices,
{
    let mut i: usize = 0;
    assert(devices@.skip(0) =~= devices@);
    proof {
        law_slots_lead_to_device(devices@, qdev_id@);
    }
    while i < devices.len()
        invariant
            0 <= i <= devices@.len(),
            path@ == old(path)@,
            slots_to(devices@, qdev_id@) == slots_to(devices@.skip(i as int), qdev_id@),
            device_of(devices@, qdev_id@) == device_of(devices@.skip(i as int), qdev_id@),
        decreases devices@.len() - i,
    {
        let ghost rest = devices@.skip(i as int);
        assert(rest[0] == devices@[i as int]);
        assert(rest.drop_first() =~= devices@.skip(i + 1));
        path.push(devices[i].slot);
        if same(devices[i].qdev_id.as_str(), qdev_id) {
            let found = devices[i].clone();
            assert(path@ =~= old(path)@ + seq![devices@[i as int].slot]);
            return Some(found);
        }
        if let Some(children) = &devices[i].bridge {
            assert(decreases_to!(devices => devices@[i as int].bridge->0));
            let ghost before = path@;
            if let Some(found) = get_pci_path_by_qdev_id(children, qdev_id, path) {
                proof {
                    let slots = slots_to(children@, qdev_id@)->0;
                    assert(path@ =~= old(path)@ + (seq![devices@[i as int].slot] + slots));
                }
                return Some(found);
            }
            proof {
                law_slots_lead_to_device(children@, qdev_id@);
            }
        }
        let _ = path.pop();
        assert(path@ =~= old(path)@);
        i = i + 1;
    }
    None
}

/// Whether a name is that of a root port.
fn is_root_port(root_port: &str) -> (r: bool)
    ensures
        r == names_root_port(root_port@),
{
    match strip_prefix(root_port, "rp") {
        Some(index) => parse_number(&chars_of(index.as_str()), u32::MAX as u64).is_ok(),
        None => false,
    }
}

/// A chosen target, as a model.
pub open spec fn target(r: Result<(String, i64, bool), Error>) -> Result<
    (Seq<char>, i64, bool),
    ErrorModel,
> {
    match r {
        Ok((bus, slot, on_bridge)) => Ok((bus@, slot, on_bridge)),
        Err(error) => Err(error.deep_view()),
    }
}

/// A found bridge, as a model.
pub open spec fn bridge_result(r: Result<(String, i64), Error>) -> Result<
    (Seq<char>, i64),
    ErrorModel,
> {
    match r {
        Ok((bus, slot)) => Ok((bus@, slot)),
        Err(error) => Err(error.deep_view()),
    }
}

/// Where a PCI block device goes: bus, slot, and whether the slot is that of a tracked bridge.
/// `bridge` is what the search for a free slot gave; it counts where no root port is given.
pub fn select_block_pci_target(
    pcie_root_port: Option<&str>,
    bridge: Result<(String, i64), Error>,
) -> (r: Result<(String, i64, bool), Error>)
    ensures
        target(r) == block_pci_target(
            match pcie_root_port {
                Some(root_port) => Some(root_port@),
                None => None,
            },
            bridge_result(bridge),
        ),
{
    if let Some(root_port) = pcie_root_port {
        if !is_root_port(root_port) {
            return Err(Error::msg(cat2("invalid PCIe root-port bus ", root_port)));
        }
        return Ok((root_port.to_owned(), 0, false));
    }
    match bridge {
        Ok((bus, slot)) => Ok((bus, slot, true)),
        Err(error) => Err(error),
    }
}

impl Qmp {
    /// Empties the first `count` tracked bridges, and makes those that are missing.
    pub fn init_pci_bridges(&mut self, count: u32)
        ensures
            final(self)@ == (QmpModel {
                bridges: bridges_initialized(old(self)@.bridges, count as int),
                ..old(self)@
            }),
    {
        let mut bridges: Vec<Bridge> = Vec::new();
        let mut rest: Vec<Bridge> = Vec::new();
        std::mem::swap(&mut rest, &mut self.pci_bridge_devices);
        let ghost all = rest@;
        let mut i: u32 = 0;
        while i < count
            invariant
                0 <= i <= count,
                bridges@.len() == i,
                rest@ == all.skip(if i < all.len() { i as int } else { all.len() as int }),
                forall|j: int|
                    0 <= j < i ==> (#[trigger] bridges@[j]).deep_view() == Map::<
                        i64,
                        Seq<char>,
                    >::empty(),
            decreases count - i,
        {
            let bridge = Bridge { devices: Vec::new() };
            bridges.push(bridge);
            if rest.len() > 0 {
                let _ = rest.remove(0);
                assert(rest@ =~= all.skip(i + 1));
            } else {
                assert(all.skip(all.len() as int) =~= rest@);
            }
            i = i + 1;
        }
        let ghost head = bridges@;
        let ghost tail = rest@;
        bridges.append(&mut rest);
        self.pci_bridge_devices = bridges;
        proof {
            assert(self@.bridges =~= bridges_initialized(old(self)@.bridges, count as int)) by {
                assert forall|j: int| 0 <= j < self@.bridges.len() implies self@.bridges[j]
                    == bridges_initialized(old(self)@.bridges, count as int)[j] by {
                    if j < count {
                        assert(bridges@[j] == head[j]);
                    } else {
                        assert(bridges@[j] == tail[j - count]);
                        assert(tail[j - count] == all[j]);
                    }
                }
            }
        }
    }

    /// A free hot-plug slot, with the name of its bus.
    pub fn find_free_slot(&mut self) -> (r: Result<Result<(String, i64), Error>, QmpCommand>)
        ensures
            (final(self)@, flow(r)) == free_slot(old(self)@),
    {
        let mut i: usize = 0;
        while i < self.pci_bridge_devices.len()
            invariant
                0 <= i <= self.pci_bridge_devices@.len(),
                self@ == old(self)@,
                free_on_bridges(self@.bridges, 0) == free_on_bridges(self@.bridges, i as int),
            decreases self.pci_bridge_devices@.len() - i,
        {
            assert(self@.bridges[i as int] == self.pci_bridge_devices@[i as int].deep_view());
            if let Some(slot) = self.pci_bridge_devices[i].free() {
                return Ok(Ok((bridge_id_of(i), slot)));
            }
            i = i + 1;
        }
        let reply = self.ask(QmpCommand::QueryPci)?;
        let buses = match decode_pci(reply) {
            Ok(buses) => buses,
            Err(error) => {
                return Ok(Err(error.into_error()));
            },
        };
        let mut k: usize = 0;
        assert(buses@.skip(0) =~= buses@);
        while k < buses.len()
            invariant
                0 <= k <= buses@.len(),
                free_on_buses(buses@) == free_on_buses(buses@.skip(k as int)),
                old(self)@.replies.len() > 0,
                self@ == taken(old(self)@),
                free_on_bridges(old(self)@.bridges, 0) is None,
                pci_in(old(self)@.replies[0]) == Ok::<Seq<Vec<PciDevice>>, FailureModel>(buses@),
            decreases buses@.len() - k,
        {
            assert(buses@.skip(k as int).drop_first() =~= buses@.skip(k + 1));
            if let Some(found) = find_free_slot_in_pci_devices(&buses[k]) {
                return Ok(Ok(found));
            }
            k = k + 1;
        }
        Ok(Err(Error::msg_str("no free slots on PCI bridges")))
    }

    /// Notes that a device is in a slot of a bridge. A bridge that is not tracked is left alone.
    pub fn record_pci_bridge_slot(&mut self, bridge_id: &str, slot: i64, device_id: &str)
        ensures
            final(self)@ == (QmpModel {
                bridges: slot_recorded(old(self)@.bridges, bridge_id@, slot, device_id@),
                ..old(self)@
            }),
    {
        let mut i: usize = 0;
        while i < self.pci_bridge_devices.len()
            invariant
                0 <= i <= self.pci_bridge_devices@.len(),
                *self == *old(self),
                bridge_index(self@.bridges, bridge_id@, 0) == bridge_index(
                    self@.bridges,
                    bridge_id@,
                    i as int,
                ),
            decreases self.pci_bridge_devices@.len() - i,
        {
            if same(bridge_id_of(i).as_str(), bridge_id) {
                let mut devices: Vec<Occupant> = Vec::new();
                std::mem::swap(&mut devices, &mut self.pci_bridge_devices[i].devices);
                let ghost before = devices@;
                assert(before == old(self).pci_bridge_devices@[i as int].devices@);
                let occupant = Occupant { slot, device_id: device_id.to_owned() };
                devices.push(occupant);
                assert(devices@.drop_last() =~= before);
                std::mem::swap(&mut devices, &mut self.pci_bridge_devices[i].devices);
                proof {
                    assert(occupied(self.pci_bridge_devices@[i as int].devices@) == occupied(
                        before,
                    ).insert(slot, device_id@));
                    assert(self@.bridges =~= slot_recorded(
                        old(self)@.bridges,
                        bridge_id@,
                        slot,
                        device_id@,
                    ));
                }
                return;
            }
            i = i + 1;
        }
    }

    /// The path of a device in the tree that QEMU lists.
    pub fn get_device_by_qdev_id(&mut self, qdev_id: &str) -> (r: Result<
        Result<PciPath, Error>,
        QmpCommand,
    >)
        ensures
            (final(self)@, flow(r)) == device_path(old(self)@, qdev_id@),
    {
        let reply = self.ask(QmpCommand::QueryPci)?;
        let buses = match decode_pci(reply) {
            Ok(buses) => buses,
            Err(error) => {
                return Ok(Err(error.into_error()));
            },
        };
        let mut path: Vec<i64> = Vec::new();
        let mut k: usize = 0;
        assert(buses@.skip(0) =~= buses@);
        while k < buses.len()
            invariant
                0 <= k <= buses@.len(),
                path@ =~= seq![],
                slots_on_buses(buses@, qdev_id@) == slots_on_buses(
                    buses@.skip(k as int),
                    qdev_id@,
                ),
                old(self)@.replies.len() > 0,
                self@ == taken(old(self)@),
                pci_in(old(self)@.replies[0]) == Ok::<Seq<Vec<PciDevice>>, FailureModel>(buses@),
            decreases buses@.len() - k,
        {
            assert(buses@.skip(k as int).drop_first() =~= buses@.skip(k + 1));
            proof {
                law_slots_lead_to_device(buses@[k as int]@, qdev_id@);
            }
            if get_pci_path_by_qdev_id(&buses[k], qdev_id, &mut path).is_some() {
                assert(path@ =~= slots_to(buses@[k as int]@, qdev_id@)->0);
                return Ok(PciPath::from_slots(&path));
            }
            k = k + 1;
        }
        Ok(Err(Error::msg_str("no target device found")))
    }

    fn read_parent_bus(&mut self, id: &str) -> (r: Result<Result<String, Error>, QmpCommand>)
        ensures
            (final(self)@, flow(r)) == parent_read(old(self)@, id@),
    {
        let reply = self.ask(
            QmpCommand::QomGet {
                path: cat2("/machine/peripheral/", id),
                property: "parent_bus".to_owned(),
            },
        )?;
        match decode_value(reply) {
            Err(error) => Ok(Err(error.into_error())),
            Ok(QomValue::Text(bus)) => Ok(Ok(bus)),
            Ok(_) => Ok(
                Err(Error::msg(cat2("QEMU returned a non-string parent bus for ", id))),
            ),
        }
    }

    fn read_address(&mut self, id: &str) -> (r: Result<Result<i64, Error>, QmpCommand>)
        ensures
            (final(self)@, flow(r)) == address_read(old(self)@, id@),
    {
        let reply = self.ask(
            QmpCommand::QomGet {
                path: cat2("/machine/peripheral/", id),
                property: "addr".to_owned(),
            },
        )?;
        match decode_value(reply) {
            Err(error) => Ok(Err(error.into_error())),
            Ok(QomValue::Integer(n)) => Ok(Ok(n)),
            Ok(_) => Ok(
                Err(Error::msg(cat2("QEMU returned a non-integer PCI address for ", id))),
            ),
        }
    }

    /// The path of a device behind a root port.
    pub fn get_root_port_device_path(&mut self, qdev_id: &str, root_port: &str) -> (r: Result<
        Result<PciPath, Error>,
        QmpCommand,
    >)
        ensures
            (final(self)@, flow(r)) == root_port_path(old(self)@, qdev_id@, root_port@),
    {
        let bus = match self.read_parent_bus(qdev_id)? {
            Ok(bus) => bus,
            Err(error) => {
                return Ok(Err(error));
            },
        };
        let expected = cat4("/machine/peripheral/", root_port, "/", root_port);
        if !same(bus.as_str(), expected.as_str()) {
            return Ok(
                Err(
                    Error::msg(
                        cat5("QEMU attached ", qdev_id, " to ", bus.as_str(), ", expected ").concat(
                            expected.as_str(),
                        ),
                    ),
                ),
            );
        }
        let device_addr: i64 = match self.read_address(qdev_id)? {
            Ok(addr) => addr,
            Err(error) => {
                return Ok(Err(error));
            },
        };
        let root_addr: i64 = match self.read_address(root_port)? {
            Ok(addr) => addr,
            Err(error) => {
                return Ok(Err(error));
            },
        };
        if device_addr < 0 || root_addr < 0 {
            return Ok(
                Err(
                    Error::msg(
                        cat4(
                            "QEMU returned a negative PCI address for ",
                            qdev_id,
                            " or ",
                            root_port,
                        ),
                    ),
                ),
            );
        }
        let mut slots: Vec<i64> = Vec::new();
        slots.push(root_addr / 8);
        slots.push(device_addr / 8);
        assert(slots@ =~= seq![
            (root_addr as int / 8) as i64,
            (device_addr as int / 8) as i64,
        ]);
        Ok(PciPath::from_slots(&slots))
    }

    /// Chooses where a PCI block device goes.
    pub fn select_pci_target(&mut self, pcie_root_port: Option<&str>) -> (r: Result<
        Result<(String, i64, bool), Error>,
        QmpCommand,
    >)
        ensures
            (final(self)@, flow(r)) == pci_target_selected(
                old(self)@,
                match pcie_root_port {
                    Some(root_port) => Some(root_port@),
                    None => None,
                },
            ),
    {
        if pcie_root_port.is_some() {
            return Ok(
                select_block_pci_target(pcie_root_port, Err(Error::msg(String::new()))),
            );
        }
        let bridge = self.find_free_slot()?;
        Ok(select_block_pci_target(None, bridge))
    }
}

} // verus!
