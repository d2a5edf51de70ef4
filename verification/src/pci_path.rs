//! The path of a PCI device: the slot on the root bus, then the slot behind each bridge.
use crate::error::{message, Error, ErrorModel};
use crate::qmp::session::outcome;
use crate::text::{chars_of, digit_char, digits, hex, hex_padded, join, joined, law_split_undoes_join, split, split_text,
    zero_padded,
};
use vstd::prelude::*;

verus! {

/// The number of slots of a PCI bus.
pub const PCI_SLOTS: i64 = 32;

/// The path of a PCI device.
#[derive(Clone, Debug, PartialEq, Eq)]
pub struct PciPath {
    pub slots: Vec<u8>,
}

impl DeepView for PciPath {
    type V = Seq<u8>;

    open spec fn deep_view(&self) -> Seq<u8> {
        self.slots@
    }
}

/// Slots as text: two hexadecimal digits each, with a slash between neighbours.
pub open spec fn slots_text(slots: Seq<int>) -> Seq<char> {
    joined(slots.map_values(|slot: int| zero_padded(hex(slot as nat), 2)), "/"@)
}

/// Whether numbers can be the slots of a path.
pub open spec fn are_slots(slots: Seq<i64>) -> bool {
    slots.len() > 0 && forall|i: int| 0 <= i < slots.len() ==> 0 <= #[trigger] slots[i] < PCI_SLOTS
}

/// The path with these slots, where they can be slots.
pub open spec fn path_of(slots: Seq<i64>) -> Result<Seq<u8>, ErrorModel> {
    if are_slots(slots) {
        Ok(slots.map_values(|slot: i64| slot as u8))
    } else {
        Err(message("invalid PCI path"@))
    }
}

/// The value of a hexadecimal digit.
pub open spec fn hex_value(c: char) -> Option<int> {
    if '0' <= c && c <= '9' {
        Some(c as int - '0' as int)
    } else if 'a' <= c && c <= 'f' {
        Some(c as int - 'a' as int + 10)
    } else if 'A' <= c && c <= 'F' {
        Some(c as int - 'A' as int + 10)
    } else {
        None
    }
}

/// The slot that one or two hexadecimal digits name.
pub open spec fn slot_in(text: Seq<char>) -> Option<int> {
    if text.len() == 1 {
        hex_value(text[0])
    } else if text.len() == 2 {
        match (hex_value(text[0]), hex_value(text[1])) {
            (Some(high), Some(low)) => if 16 * high + low < PCI_SLOTS {
                Some(16 * high + low)
            } else {
                None
            },
            _ => None,
        }
    } else {
        None
    }
}

/// The path that a text names: slots with a slash between neighbours.
pub open spec fn path_in(text: Seq<char>) -> Result<Seq<u8>, ErrorModel> {
    let parts = split(text, '/');
    if forall|i: int| 0 <= i < parts.len() ==> slot_in(#[trigger] parts[i]) is Some {
        Ok(parts.map_values(|part: Seq<char>| slot_in(part)->0 as u8))
    } else {
        Err(message("invalid PCI path"@))
    }
}

fn hex_digit(c: char) -> (r: Option<u8>)
    ensures
        match r {
            Some(value) => hex_value(c) == Some(value as int) && value < 16,
            None => hex_value(c) is None,
        },
{
    if '0' <= c && c <= '9' {
        Some((c as u32 - '0' as u32) as u8)
    } else if 'a' <= c && c <= 'f' {
        Some((c as u32 - 'a' as u32 + 10) as u8)
    } else if 'A' <= c && c <= 'F' {
        Some((c as u32 - 'A' as u32 + 10) as u8)
    } else {
        None
    }
}

fn parse_slot(text: &str) -> (r: Option<u8>)
    ensures
        match r {
            Some(slot) => slot_in(text@) == Some(slot as int),
            None => slot_in(text@) is None,
        },
{
    let chars = chars_of(text);
    if chars.len() == 1 {
        return hex_digit(chars[0]);
    }
    if chars.len() != 2 {
        return None;
    }
    match (hex_digit(chars[0]), hex_digit(chars[1])) {
        (Some(high), Some(low)) => {
            let slot: i64 = 16 * (high as i64) + (low as i64);
            if slot < PCI_SLOTS {
                Some(slot as u8)
            } else {
                None
            }
        },
        _ => None,
    }
}

impl PciPath {
    /// The path with these slots, where they can be slots.
    pub fn from_slots(slots: &Vec<i64>) -> (r: Result<PciPath, Error>)
        ensures
            outcome(r) == path_of(slots@),
    {
        let mut kept: Vec<u8> = Vec::new();
        let mut i: usize = 0;
        while i < slots.len()
            invariant
                0 <= i <= slots@.len(),
                kept@.len() == i,
                forall|j: int| 0 <= j < i ==> 0 <= #[trigger] slots@[j] < PCI_SLOTS,
                forall|j: int| 0 <= j < i ==> kept@[j] == (#[trigger] slots@[j]) as u8,
            decreases slots@.len() - i,
        {
            if slots[i] < 0 || slots[i] >= PCI_SLOTS {
                assert(!are_slots(slots@));
                return Err(Error::msg_str("invalid PCI path"));
            }
            kept.push(slots[i] as u8);
            i = i + 1;
        }
        if kept.len() == 0 {
            return Err(Error::msg_str("invalid PCI path"));
        }
        assert(kept@ =~= slots@.map_values(|slot: i64| slot as u8));
        Ok(PciPath { slots: kept })
    }

    /// The path that a text names: slots with a slash between neighbours.
    pub fn from_text(text: &str) -> (r: Result<PciPath, Error>)
        ensures
            outcome(r) == path_in(text@),
    {
        let parts = split_text(text, '/');
        let mut kept: Vec<u8> = Vec::new();
        let mut i: usize = 0;
        while i < parts.len()
            invariant
                0 <= i <= parts@.len(),
                parts.deep_view() == split(text@, '/'),
                kept@.len() == i,
                forall|j: int|
                    0 <= j < i ==> slot_in(#[trigger] parts.deep_view()[j]) is Some && kept@[j]
                        == slot_in(parts.deep_view()[j])->0,
            decreases parts@.len() - i,
        {
            assert(parts.deep_view()[i as int] == parts@[i as int]@);
            match parse_slot(parts[i].as_str()) {
                Some(slot) => kept.push(slot),
                None => {
                    return Err(Error::msg_str("invalid PCI path"));
                },
            }
            i = i + 1;
        }
        assert(kept@ =~= split(text@, '/').map_values(
            |part: Seq<char>| slot_in(part)->0 as u8,
        ));
        Ok(PciPath { slots: kept })
    }

    /// The path as text.
    pub fn to_text(&self) -> (r: String)
        ensures
            r@ == slots_text(self.deep_view().map_values(|slot: u8| slot as int)),
    {
        let mut parts: Vec<String> = Vec::new();
        let mut i: usize = 0;
        while i < self.slots.len()
            invariant
                0 <= i <= self.slots@.len(),
                parts@.len() == i,
                forall|j: int|
                    0 <= j < i ==> (#[trigger] parts@[j])@ == zero_padded(
                        hex(self.slots@[j] as nat),
                        2,
                    ),
            decreases self.slots@.len() - i,
        {
            parts.push(hex_padded(self.slots[i] as u64, 2));
            i = i + 1;
        }
        let ghost slots = self.deep_view().map_values(|slot: u8| slot as int);
        assert(parts.deep_view() =~= slots.map_values(
            |slot: int| zero_padded(hex(slot as nat), 2),
        ));
        join(&parts, "/")
    }

    /// Whether two paths are the same.
    pub fn same_path(&self, other: &PciPath) -> (r: bool)
        ensures
            r == (self.deep_view() == other.deep_view()),
    {
        if self.slots.len() != other.slots.len() {
            return false;
        }
        let mut i: usize = 0;
        while i < self.slots.len()
            invariant
                0 <= i <= self.slots@.len(),
                self.slots@.len() == other.slots@.len(),
                forall|j: int| 0 <= j < i ==> #[trigger] self.slots@[j] == other.slots@[j],
            decreases self.slots@.len() - i,
        {
            if self.slots[i] != other.slots[i] {
                return false;
            }
            i = i + 1;
        }
        assert(self.slots@ =~= other.slots@);
        true
    }

    /// A copy of the path.
    pub fn dup(&self) -> (r: PciPath)
        ensures
            r.deep_view() == self.deep_view(),
    {
        let mut slots: Vec<u8> = Vec::new();
        let mut i: usize = 0;
        while i < self.slots.len()
            invariant
                0 <= i <= self.slots@.len(),
                slots@ =~= self.slots@.take(i as int),
            decreases self.slots@.len() - i,
        {
            slots.push(self.slots[i]);
            i = i + 1;
        }
        PciPath { slots }
    }
}

proof fn lemma_slot_text(slot: int)
    requires
        0 <= slot < PCI_SLOTS,
    ensures
        slot_in(zero_padded(hex(slot as nat), 2)) == Some(slot),
        !zero_padded(hex(slot as nat), 2).contains('/'),
{
    let text = zero_padded(hex(slot as nat), 2);
    reveal_with_fuel(digits, 3);
    if slot < 16 {
        assert(hex(slot as nat) =~= seq![digit_char(slot)]);
        assert(text =~= seq!['0', digit_char(slot)]);
    } else {
        assert(slot / 16 == 1);
        assert(hex(slot as nat) =~= seq![digit_char(1), digit_char(slot % 16)]);
        assert(text =~= seq!['1', digit_char(slot % 16)]);
    }
}

/// A path is found again from its text.
pub proof fn law_path_text_round_trip(slots: Seq<u8>)
    requires
        slots.len() > 0,
        forall|i: int| 0 <= i < slots.len() ==> (#[trigger] slots[i]) < PCI_SLOTS,
    ensures
        path_in(slots_text(slots.map_values(|slot: u8| slot as int))) == Ok::<Seq<u8>, ErrorModel>(
            slots,
        ),
{
    let numbers = slots.map_values(|slot: u8| slot as int);
    let parts = numbers.map_values(|slot: int| zero_padded(hex(slot as nat), 2));
    assert forall|i: int| 0 <= i < parts.len() implies !(#[trigger] parts[i]).contains('/')
        && slot_in(parts[i]) == Some(slots[i] as int) by {
        lemma_slot_text(slots[i] as int);
    }
    reveal_strlit("/");
    assert("/"@ =~= seq!['/']);
    law_split_undoes_join(parts, '/');
    assert(parts.map_values(|part: Seq<char>| slot_in(part)->0 as u8) =~= slots);
}

} // verus!
