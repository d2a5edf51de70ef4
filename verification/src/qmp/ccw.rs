//! The subchannel on which s390x devices get their addresses.
use crate::table::Table;
use crate::text::{cat2, digit_char, hex, hex_padded, zero_padded};
use vstd::prelude::*;

verus! {

/// A CCW subchannel: the devices on it with their slots, and the slot that the next one gets.
#[derive(Clone, Debug)]
pub struct CcwSubChannel {
    pub devices: Table<u32>,
    pub next_slot: u32,
}

/// The model of a [`CcwSubChannel`].
pub struct CcwModel {
    pub devices: Map<Seq<char>, u32>,
    pub next_slot: u32,
}

impl DeepView for CcwSubChannel {
    type V = CcwModel;

    open spec fn deep_view(&self) -> CcwModel {
        CcwModel { devices: self.devices.deep_view(), next_slot: self.next_slot }
    }
}

/// Why a device could not be put on a subchannel.
#[derive(Clone, Copy, Debug, PartialEq, Eq, Structural)]
pub enum CcwError {
    /// The device is on the subchannel.
    DeviceAlreadyExists,
    /// The device is not on the subchannel.
    DeviceNotFound,
    /// Every slot was given out.
    SlotsExhausted,
}

/// How a developer sees a [`CcwError`].
pub open spec fn ccw_error_text(error: CcwError) -> Seq<char> {
    match error {
        CcwError::DeviceAlreadyExists => "DeviceAlreadyExists"@,
        CcwError::DeviceNotFound => "DeviceNotFound"@,
        CcwError::SlotsExhausted => "SlotsExhausted"@,
    }
}

/// Putting a device on a subchannel: it gets the next slot, unless it is there or none is left.
pub open spec fn ccw_added(ccw: CcwModel, device_id: Seq<char>) -> (CcwModel, Result<u32, CcwError>) {
    if ccw.devices.contains_key(device_id) {
        (ccw, Err(CcwError::DeviceAlreadyExists))
    } else if ccw.next_slot == u32::MAX {
        (ccw, Err(CcwError::SlotsExhausted))
    } else {
        (
            CcwModel {
                devices: ccw.devices.insert(device_id, ccw.next_slot),
                next_slot: (ccw.next_slot + 1) as u32,
            },
            Ok(ccw.next_slot),
        )
    }
}

/// Taking a device off a subchannel.
pub open spec fn ccw_removed(ccw: CcwModel, device_id: Seq<char>) -> CcwModel {
    CcwModel { devices: ccw.devices.remove(device_id), ..ccw }
}

/// The address of a slot, as a device property.
pub open spec fn ccw_address(slot: u32) -> Seq<char> {
    "fe.0."@ + zero_padded(hex(slot as nat), 4)
}

/// The address of a slot, as the guest sees it.
pub open spec fn ccw_guest_address(slot: u32) -> Seq<char> {
    "0.0."@ + zero_padded(hex(slot as nat), 4)
}

impl CcwError {
    /// How a developer sees the error.
    pub fn text(self) -> (r: String)
        ensures
            r@ == ccw_error_text(self),
    {
        match self {
            CcwError::DeviceAlreadyExists => "DeviceAlreadyExists".to_owned(),
            CcwError::DeviceNotFound => "DeviceNotFound".to_owned(),
            CcwError::SlotsExhausted => "SlotsExhausted".to_owned(),
        }
    }
}

impl CcwSubChannel {
    /// A subchannel without devices.
    pub fn new() -> (r: CcwSubChannel)
        ensures
            r.deep_view() == (CcwModel { devices: Map::empty(), next_slot: 0 }),
    {
        CcwSubChannel { devices: Table::new(), next_slot: 0 }
    }

    /// Gives a device the next slot.
    pub fn add_device(&mut self, device_id: &str) -> (r: Result<u32, CcwError>)
        ensures
            (final(self).deep_view(), r) == ccw_added(old(self).deep_view(), device_id@),
    {
        if self.devices.contains_key(device_id) {
            return Err(CcwError::DeviceAlreadyExists);
        }
        if self.next_slot == u32::MAX {
            return Err(CcwError::SlotsExhausted);
        }
        let slot: u32 = self.next_slot;
        self.devices.insert(device_id.to_owned(), slot);
        self.next_slot = slot + 1;
        Ok(slot)
    }

    /// Takes a device off the subchannel.
    pub fn remove_device(&mut self, device_id: &str) -> (r: Result<(), CcwError>)
        ensures
            final(self).deep_view() == ccw_removed(old(self).deep_view(), device_id@),
            r == (if old(self).deep_view().devices.contains_key(device_id@) {
                Ok::<(), CcwError>(())
            } else {
                Err::<(), CcwError>(CcwError::DeviceNotFound)
            }),
    {
        match self.devices.remove(device_id) {
            Some(_) => Ok(()),
            None => Err(CcwError::DeviceNotFound),
        }
    }

    /// The address of a slot, as a device property.
    pub fn address_format_ccw(&self, slot: u32) -> (r: String)
        ensures
            r@ == ccw_address(slot),
    {
        cat2("fe.0.", hex_padded(slot as u64, 4).as_str())
    }

    /// The address of a slot, as the guest sees it.
    pub fn address_format_ccw_for_virt_server(&self, slot: u32) -> (r: String)
        ensures
            r@ == ccw_guest_address(slot),
    {
        cat2("0.0.", hex_padded(slot as u64, 4).as_str())
    }
}

/// No two devices of a subchannel have one slot, and none has a slot that is still to be given.
pub open spec fn ccw_distinct(ccw: CcwModel) -> bool {
    &&& forall|a: Seq<char>| #[trigger]
        ccw.devices.contains_key(a) ==> ccw.devices[a] < ccw.next_slot
    &&& forall|a: Seq<char>, b: Seq<char>|
        (#[trigger] ccw.devices.contains_key(a)) && (#[trigger] ccw.devices.contains_key(b)) && a
            != b ==> ccw.devices[a] != ccw.devices[b]
}

/// A subchannel never gives one slot to two devices, whatever is added and removed.
pub proof fn law_ccw_slots_stay_distinct(ccw: CcwModel, device_id: Seq<char>)
    requires
        ccw_distinct(ccw),
    ensures
        ccw_distinct(CcwModel { devices: Map::empty(), next_slot: 0 }),
        ccw_distinct(ccw_added(ccw, device_id).0),
        ccw_distinct(ccw_removed(ccw, device_id)),
{
}

/// The two addresses of a slot differ in their prefix alone, and end in the four digits of the slot.
pub proof fn law_ccw_addresses_name_the_slot(slot: u32)
    requires
        slot <= 0xffff,
    ensures
        ccw_address(slot).len() == 9,
        ccw_guest_address(slot).len() == 8,
        ccw_address(slot).take(5) == "fe.0."@,
        ccw_guest_address(slot).take(4) == "0.0."@,
        ({
            let digits = ccw_address(slot).skip(5);
            &&& digits == ccw_guest_address(slot).skip(4)
            &&& digits[0] == digit_char(slot as int / 4096)
            &&& digits[1] == digit_char(slot as int / 256 % 16)
            &&& digits[2] == digit_char(slot as int / 16 % 16)
            &&& digits[3] == digit_char(slot as int % 16)
        }),
{
    reveal_strlit("fe.0.");
    reveal_strlit("0.0.");
    reveal_with_fuel(crate::text::digits, 5);
    let n = slot as nat;
    assert(n / 16 / 16 == n / 256);
    assert(n / 256 / 16 == n / 4096);
    let four = seq![
        digit_char(slot as int / 4096),
        digit_char(slot as int / 256 % 16),
        digit_char(slot as int / 16 % 16),
        digit_char(slot as int % 16),
    ];
    assert(digit_char(0) == '0');
    assert(zero_padded(hex(n), 4) =~= four);
    assert(ccw_address(slot).skip(5) =~= four);
    assert(ccw_guest_address(slot).skip(4) =~= four);
    assert(ccw_address(slot).take(5) =~= "fe.0."@);
    assert(ccw_guest_address(slot).take(4) =~= "0.0."@);
}

} // verus!
