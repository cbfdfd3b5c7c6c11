//! Known USB Bluetooth adapters: vendor and product IDs, names and the
//! quirks the transport has to work around.

use vstd::prelude::*;

verus! {

/// Quirks of particular adapters, as bit flags.
#[derive(Clone, Copy, PartialEq, Eq, Debug, Structural)]
pub enum BtQuirk {
    /// No special handling needed.
    NoQuirks,
    /// Needs a baud rate change after firmware download (Broadcom).
    BcmBaudChange,
    /// Needs firmware before the first command (Broadcom, Intel).
    NeedFirmware,
    /// Claims SCO support that does not work.
    BrokenSco,
    /// Needs a USB reset after firmware download (MediaTek).
    NeedResetAfterFw,
    /// Supports Bluetooth 5.2 isochronous data.
    HasIsoData,
    /// Needs SSP debug mode to enable all features (Intel).
    IntelDebug,
    /// Has Realtek-specific HCI extension commands.
    RtlExtensions,
    /// Counterfeit adapter with limited functionality.
    FakeAdapter,
}

impl BtQuirk {
    /// The flag bit of this quirk.
    pub open spec fn code(self) -> u16 {
        match self {
            BtQuirk::NoQuirks => 0x0000,
            BtQuirk::BcmBaudChange => 0x0001,
            BtQuirk::NeedFirmware => 0x0002,
            BtQuirk::BrokenSco => 0x0004,
            BtQuirk::NeedResetAfterFw => 0x0008,
            BtQuirk::HasIsoData => 0x0010,
            BtQuirk::IntelDebug => 0x0020,
            BtQuirk::RtlExtensions => 0x0040,
            BtQuirk::FakeAdapter => 0x0080,
        }
    }

    pub fn bits(&self) -> (r: u16)
        ensures
            r == self.code(),
    {
        match self {
            BtQuirk::NoQuirks => 0x0000,
            BtQuirk::BcmBaudChange => 0x0001,
            BtQuirk::NeedFirmware => 0x0002,
            BtQuirk::BrokenSco => 0x0004,
            BtQuirk::NeedResetAfterFw => 0x0008,
            BtQuirk::HasIsoData => 0x0010,
            BtQuirk::IntelDebug => 0x0020,
            BtQuirk::RtlExtensions => 0x0040,
            BtQuirk::FakeAdapter => 0x0080,
        }
    }
}

/// An entry of the adapter table.
#[derive(Clone, Copy, Debug)]
pub struct BtDeviceEntry {
    pub vendor_id: u16,
    pub product_id: u16,
    pub name: &'static str,
    pub quirks: u16,
}

/// (vendor ID, product ID, quirk flags) of each known adapter, in table
/// order.
pub open spec fn device_ids() -> Seq<(u16, u16, u16)> {
    seq![
        (0x0A5Cu16, 0x21E8u16, 0x0003u16),
        (0x0A5Cu16, 0x21ECu16, 0x0003u16),
        (0x0A5Cu16, 0x216Fu16, 0x0003u16),
        (0x0A5Cu16, 0x21D7u16, 0x0003u16),
        (0x0A5Cu16, 0x22BEu16, 0x0003u16),
        (0x0A5Cu16, 0x21F1u16, 0x0003u16),
        (0x0489u16, 0xE07Au16, 0x0003u16),
        (0x0489u16, 0xE0CDu16, 0x0003u16),
        (0x413Cu16, 0x8143u16, 0x0003u16),
        (0x8087u16, 0x0025u16, 0x0022u16),
        (0x8087u16, 0x0026u16, 0x0022u16),
        (0x8087u16, 0x0A2Au16, 0x0022u16),
        (0x8087u16, 0x0A2Bu16, 0x0022u16),
        (0x8087u16, 0x0AAAu16, 0x0022u16),
        (0x8087u16, 0x0AA8u16, 0x0032u16),
        (0x8087u16, 0x0029u16, 0x0032u16),
        (0x8087u16, 0x0032u16, 0x0032u16),
        (0x8087u16, 0x0033u16, 0x0032u16),
        (0x0BDAu16, 0x8761u16, 0x0042u16),
        (0x0BDAu16, 0x8771u16, 0x0042u16),
        (0x0BDAu16, 0x8822u16, 0x0042u16),
        (0x0BDAu16, 0xC822u16, 0x0042u16),
        (0x0BDAu16, 0xB023u16, 0x0042u16),
        (0x0BDAu16, 0x4853u16, 0x0042u16),
        (0x0BDAu16, 0x2B89u16, 0x0042u16),
        (0x0BDAu16, 0xB720u16, 0x0042u16),
        (0x0BDAu16, 0xD723u16, 0x0042u16),
        (0x0BDAu16, 0x5B71u16, 0x0042u16),
        (0x10B7u16, 0xB728u16, 0x0042u16),
        (0x0CF3u16, 0xE300u16, 0x0002u16),
        (0x0489u16, 0xE0A2u16, 0x0002u16),
        (0x0CF3u16, 0xE005u16, 0x0002u16),
        (0x0CF3u16, 0x3004u16, 0x0000u16),
        (0x0489u16, 0xE036u16, 0x0002u16),
        (0x0489u16, 0xE0B0u16, 0x0012u16),
        (0x0489u16, 0xE0C5u16, 0x0012u16),
        (0x0E8Du16, 0x7921u16, 0x001au16),
        (0x0E8Du16, 0x7922u16, 0x001au16),
        (0x0E8Du16, 0x7663u16, 0x0002u16),
        (0x0E8Du16, 0x7668u16, 0x0012u16),
        (0x0A12u16, 0x0001u16, 0x0000u16),
        (0x0A12u16, 0x1000u16, 0x0000u16),
        (0x0A12u16, 0x0100u16, 0x0000u16),
        (0x0A12u16, 0x0101u16, 0x0000u16),
        (0x1131u16, 0x1001u16, 0x0000u16),
        (0x13D3u16, 0x3402u16, 0x0002u16),
        (0x13D3u16, 0x3432u16, 0x0022u16),
        (0x0930u16, 0x0225u16, 0x0000u16),
        (0x04CAu16, 0x2006u16, 0x0002u16),
        (0x04CAu16, 0x3014u16, 0x0002u16),
        (0x1CF1u16, 0x0030u16, 0x0002u16)
    ]
}

/// The names of the known adapters, in table order (see `device_ids`).
pub open spec fn device_names() -> Seq<Seq<char>> {
    seq![
        "BCM20702A1"@,
        "BCM20702A0"@,
        "BCM43142A0"@,
        "BCM4330"@,
        "BCM2076B1"@,
        "BCM2045A0"@,
        "BCM4324B3"@,
        "BCM4350C5"@,
        "DW1560 (BCM20702)"@,
        "Intel Wireless-AC 7260"@,
        "Intel Wireless-AC 3160"@,
        "Intel Wireless-AC 8260"@,
        "Intel Wireless-AC 8265"@,
        "Intel Wireless-AC 9560"@,
        "Intel AX200 (Cyborg)"@,
        "Intel AX201 (Jefferson Peak)"@,
        "Intel AX210 (Garrison Peak)"@,
        "Intel AX211"@,
        "RTL8761BUV (BT 5.0)"@,
        "RTL8771BUV (BT 5.1)"@,
        "RTL8822CE"@,
        "RTL8822CU"@,
        "RTL8821CE"@,
        "RTL8822BU"@,
        "RTL8723BE"@,
        "RTL8723BU"@,
        "RTL8723DE"@,
        "RTL8188EU (BT combo)"@,
        "RTL8723DS (Ampak)"@,
        "Qualcomm QCA6174A (WCN3680B)"@,
        "QCA9377 (WCN3610)"@,
        "AR3012 (Atheros)"@,
        "AR3011 (Atheros)"@,
        "QCA61x4A"@,
        "QCA6390 (WCN685x)"@,
        "QCA6696 (WCN6856)"@,
        "MT7921 (MT7961)"@,
        "MT7922 (Filogic 330)"@,
        "MT7663U"@,
        "MT7668U"@,
        "CSR BlueCore4"@,
        "CSR BlueCore5"@,
        "CSR8510 A10"@,
        "CSR8510 A12"@,
        "Integrated System Solution (ISSC)"@,
        "Azurewave (BCM-based)"@,
        "Azurewave (Intel-based)"@,
        "Toshiba BT Stack (generic)"@,
        "Lite-On (Broadcom based)"@,
        "Lite-On (MediaTek)"@,
        "Dell DW5821e (QCA)"@
    ]
}

/// The IDs and quirks of an entry.
pub open spec fn entry_ids(e: BtDeviceEntry) -> (u16, u16, u16) {
    (e.vendor_id, e.product_id, e.quirks)
}

/// The known adapters, in table order (see `device_ids`).
pub fn bt_device_table() -> (r: Vec<BtDeviceEntry>)
    ensures
        r@.len() == device_ids().len(),
        forall|i: int| 0 <= i < r@.len() ==> entry_ids(#[trigger] r@[i]) == device_ids()[i],
        forall|i: int| 0 <= i < r@.len() ==> (#[trigger] r@[i]).name@ == device_names()[i],
{
    let mut t: Vec<BtDeviceEntry> = Vec::new();
    t.push(BtDeviceEntry { vendor_id: 0x0A5C, product_id: 0x21E8, name: "BCM20702A1", quirks: 0x0003 });
    t.push(BtDeviceEntry { vendor_id: 0x0A5C, product_id: 0x21EC, name: "BCM20702A0", quirks: 0x0003 });
    t.push(BtDeviceEntry { vendor_id: 0x0A5C, product_id: 0x216F, name: "BCM43142A0", quirks: 0x0003 });
    t.push(BtDeviceEntry { vendor_id: 0x0A5C, product_id: 0x21D7, name: "BCM4330", quirks: 0x0003 });
    t.push(BtDeviceEntry { vendor_id: 0x0A5C, product_id: 0x22BE, name: "BCM2076B1", quirks: 0x0003 });
    t.push(BtDeviceEntry { vendor_id: 0x0A5C, product_id: 0x21F1, name: "BCM2045A0", quirks: 0x0003 });
    t.push(BtDeviceEntry { vendor_id: 0x0489, product_id: 0xE07A, name: "BCM4324B3", quirks: 0x0003 });
    t.push(BtDeviceEntry { vendor_id: 0x0489, product_id: 0xE0CD, name: "BCM4350C5", quirks: 0x0003 });
    t.push(BtDeviceEntry { vendor_id: 0x413C, product_id: 0x8143, name: "DW1560 (BCM20702)", quirks: 0x0003 });
    t.push(BtDeviceEntry { vendor_id: 0x8087, product_id: 0x0025, name: "Intel Wireless-AC 7260", quirks: 0x0022 });
    t.push(BtDeviceEntry { vendor_id: 0x8087, product_id: 0x0026, name: "Intel Wireless-AC 3160", quirks: 0x0022 });
    t.push(BtDeviceEntry { vendor_id: 0x8087, product_id: 0x0A2A, name: "Intel Wireless-AC 8260", quirks: 0x0022 });
    t.push(BtDeviceEntry { vendor_id: 0x8087, product_id: 0x0A2B, name: "Intel Wireless-AC 8265", quirks: 0x0022 });
    t.push(BtDeviceEntry { vendor_id: 0x8087, product_id: 0x0AAA, name: "Intel Wireless-AC 9560", quirks: 0x0022 });
    t.push(BtDeviceEntry { vendor_id: 0x8087, product_id: 0x0AA8, name: "Intel AX200 (Cyborg)", quirks: 0x0032 });
    t.push(BtDeviceEntry { vendor_id: 0x8087, product_id: 0x0029, name: "Intel AX201 (Jefferson Peak)", quirks: 0x0032 });
    t.push(BtDeviceEntry { vendor_id: 0x8087, product_id: 0x0032, name: "Intel AX210 (Garrison Peak)", quirks: 0x0032 });
    t.push(BtDeviceEntry { vendor_id: 0x8087, product_id: 0x0033, name: "Intel AX211", quirks: 0x0032 });
    t.push(BtDeviceEntry { vendor_id: 0x0BDA, product_id: 0x8761, name: "RTL8761BUV (BT 5.0)", quirks: 0x0042 });
    t.push(BtDeviceEntry { vendor_id: 0x0BDA, product_id: 0x8771, name: "RTL8771BUV (BT 5.1)", quirks: 0x0042 });
    t.push(BtDeviceEntry { vendor_id: 0x0BDA, product_id: 0x8822, name: "RTL8822CE", quirks: 0x0042 });
    t.push(BtDeviceEntry { vendor_id: 0x0BDA, product_id: 0xC822, name: "RTL8822CU", quirks: 0x0042 });
    t.push(BtDeviceEntry { vendor_id: 0x0BDA, product_id: 0xB023, name: "RTL8821CE", quirks: 0x0042 });
    t.push(BtDeviceEntry { vendor_id: 0x0BDA, product_id: 0x4853, name: "RTL8822BU", quirks: 0x0042 });
    t.push(BtDeviceEntry { vendor_id: 0x0BDA, product_id: 0x2B89, name: "RTL8723BE", quirks: 0x0042 });
    t.push(BtDeviceEntry { vendor_id: 0x0BDA, product_id: 0xB720, name: "RTL8723BU", quirks: 0x0042 });
    t.push(BtDeviceEntry { vendor_id: 0x0BDA, product_id: 0xD723, name: "RTL8723DE", quirks: 0x0042 });
    t.push(BtDeviceEntry { vendor_id: 0x0BDA, product_id: 0x5B71, name: "RTL8188EU (BT combo)", quirks: 0x0042 });
    t.push(BtDeviceEntry { vendor_id: 0x10B7, product_id: 0xB728, name: "RTL8723DS (Ampak)", quirks: 0x0042 });
    t.push(BtDeviceEntry { vendor_id: 0x0CF3, product_id: 0xE300, name: "Qualcomm QCA6174A (WCN3680B)", quirks: 0x0002 });
    t.push(BtDeviceEntry { vendor_id: 0x0489, product_id: 0xE0A2, name: "QCA9377 (WCN3610)", quirks: 0x0002 });
    t.push(BtDeviceEntry { vendor_id: 0x0CF3, product_id: 0xE005, name: "AR3012 (Atheros)", quirks: 0x0002 });
    t.push(BtDeviceEntry { vendor_id: 0x0CF3, product_id: 0x3004, name: "AR3011 (Atheros)", quirks: 0x0000 });
    t.push(BtDeviceEntry { vendor_id: 0x0489, product_id: 0xE036, name: "QCA61x4A", quirks: 0x0002 });
    t.push(BtDeviceEntry { vendor_id: 0x0489, product_id: 0xE0B0, name: "QCA6390 (WCN685x)", quirks: 0x0012 });
    t.push(BtDeviceEntry { vendor_id: 0x0489, product_id: 0xE0C5, name: "QCA6696 (WCN6856)", quirks: 0x0012 });
    t.push(BtDeviceEntry { vendor_id: 0x0E8D, product_id: 0x7921, name: "MT7921 (MT7961)", quirks: 0x001a });
    t.push(BtDeviceEntry { vendor_id: 0x0E8D, product_id: 0x7922, name: "MT7922 (Filogic 330)", quirks: 0x001a });
    t.push(BtDeviceEntry { vendor_id: 0x0E8D, product_id: 0x7663, name: "MT7663U", quirks: 0x0002 });
    t.push(BtDeviceEntry { vendor_id: 0x0E8D, product_id: 0x7668, name: "MT7668U", quirks: 0x0012 });
    t.push(BtDeviceEntry { vendor_id: 0x0A12, product_id: 0x0001, name: "CSR BlueCore4", quirks: 0x0000 });
    t.push(BtDeviceEntry { vendor_id: 0x0A12, product_id: 0x1000, name: "CSR BlueCore5", quirks: 0x0000 });
    t.push(BtDeviceEntry { vendor_id: 0x0A12, product_id: 0x0100, name: "CSR8510 A10", quirks: 0x0000 });
    t.push(BtDeviceEntry { vendor_id: 0x0A12, product_id: 0x0101, name: "CSR8510 A12", quirks: 0x0000 });
    t.push(BtDeviceEntry { vendor_id: 0x1131, product_id: 0x1001, name: "Integrated System Solution (ISSC)", quirks: 0x0000 });
    t.push(BtDeviceEntry { vendor_id: 0x13D3, product_id: 0x3402, name: "Azurewave (BCM-based)", quirks: 0x0002 });
    t.push(BtDeviceEntry { vendor_id: 0x13D3, product_id: 0x3432, name: "Azurewave (Intel-based)", quirks: 0x0022 });
    t.push(BtDeviceEntry { vendor_id: 0x0930, product_id: 0x0225, name: "Toshiba BT Stack (generic)", quirks: 0x0000 });
    t.push(BtDeviceEntry { vendor_id: 0x04CA, product_id: 0x2006, name: "Lite-On (Broadcom based)", quirks: 0x0002 });
    t.push(BtDeviceEntry { vendor_id: 0x04CA, product_id: 0x3014, name: "Lite-On (MediaTek)", quirks: 0x0002 });
    t.push(BtDeviceEntry { vendor_id: 0x1CF1, product_id: 0x0030, name: "Dell DW5821e (QCA)", quirks: 0x0002 });
    assert(t@.map_values(|e: BtDeviceEntry| entry_ids(e)) =~= device_ids());
    assert(t@.map_values(|e: BtDeviceEntry| e.name@) =~= device_names());
    proof {
        assert forall|i: int| 0 <= i < t@.len() implies entry_ids(#[trigger] t@[i]) == device_ids()[i] by {
            assert(t@.map_values(|e: BtDeviceEntry| entry_ids(e))[i] == entry_ids(t@[i]));
        }
        assert forall|i: int| 0 <= i < t@.len() implies (#[trigger] t@[i]).name@ == device_names()[i] by {
            assert(t@.map_values(|e: BtDeviceEntry| e.name@)[i] == t@[i].name@);
        }
    }
    t
}

/// Whether table entry `i` is the first one with the given IDs.
pub open spec fn first_match(vendor_id: u16, product_id: u16, i: int) -> bool {
    &&& 0 <= i < device_ids().len()
    &&& device_ids()[i].0 == vendor_id && device_ids()[i].1 == product_id
    &&& forall|k: int| 0 <= k < i ==> !((#[trigger] device_ids()[k]).0 == vendor_id && device_ids()[k].1 == product_id)
}

/// The first table entry with the given vendor and product IDs.
pub fn lookup_bt_device(vendor_id: u16, product_id: u16) -> (r: Option<BtDeviceEntry>)
    ensures
        match r {
            Some(e) => exists|i: int| first_match(vendor_id, product_id, i) && entry_ids(e) == device_ids()[i]
                && e.name@ == device_names()[i],
            None => forall|i: int| 0 <= i < device_ids().len()
                ==> !((#[trigger] device_ids()[i]).0 == vendor_id && device_ids()[i].1 == product_id),
        },
{
    let table = bt_device_table();
    let mut i: usize = 0;
    while i < table.len()
        invariant
            i <= table@.len(),
            table@.len() == device_ids().len(),
            forall|k: int| 0 <= k < table@.len() ==> entry_ids(#[trigger] table@[k]) == device_ids()[k],
            forall|k: int| 0 <= k < table@.len() ==> (#[trigger] table@[k]).name@ == device_names()[k],
            forall|k: int| 0 <= k < i ==> !((#[trigger] device_ids()[k]).0 == vendor_id && device_ids()[k].1 == product_id),
        decreases table@.len() - i,
    {
        let e = table[i];
        assert(entry_ids(table@[i as int]) == device_ids()[i as int]);
        assert(table@[i as int].name@ == device_names()[i as int]);
        if e.vendor_id == vendor_id && e.product_id == product_id {
            assert(first_match(vendor_id, product_id, i as int));
            return Some(e);
        }
        i = i + 1;
    }
    None
}

/// Whether `entry` has `quirk` set.
pub fn has_quirk(entry: &BtDeviceEntry, quirk: BtQuirk) -> (r: bool)
    ensures
        r == (entry.quirks & quirk.code() != 0),
{
    (entry.quirks & quirk.bits()) != 0
}



proof fn lemma_table_values()
    ensures
        device_ids()[0] == (0x0A5Cu16, 0x21E8u16, 0x0003u16),
        device_ids()[1] == (0x0A5Cu16, 0x21ECu16, 0x0003u16),
        device_ids()[2] == (0x0A5Cu16, 0x216Fu16, 0x0003u16),
        device_ids()[3] == (0x0A5Cu16, 0x21D7u16, 0x0003u16),
        device_ids()[4] == (0x0A5Cu16, 0x22BEu16, 0x0003u16),
        device_ids()[5] == (0x0A5Cu16, 0x21F1u16, 0x0003u16),
        device_ids()[6] == (0x0489u16, 0xE07Au16, 0x0003u16),
        device_ids()[7] == (0x0489u16, 0xE0CDu16, 0x0003u16),
        device_ids()[8] == (0x413Cu16, 0x8143u16, 0x0003u16),
        device_ids()[9] == (0x8087u16, 0x0025u16, 0x0022u16),
        device_ids()[10] == (0x8087u16, 0x0026u16, 0x0022u16),
        device_ids()[11] == (0x8087u16, 0x0A2Au16, 0x0022u16),
        device_ids()[12] == (0x8087u16, 0x0A2Bu16, 0x0022u16),
        device_ids()[13] == (0x8087u16, 0x0AAAu16, 0x0022u16),
        device_ids()[14] == (0x8087u16, 0x0AA8u16, 0x0032u16),
        device_ids()[15] == (0x8087u16, 0x0029u16, 0x0032u16),
        device_ids()[16] == (0x8087u16, 0x0032u16, 0x0032u16),
        device_ids()[17] == (0x8087u16, 0x0033u16, 0x0032u16),
        device_ids()[18] == (0x0BDAu16, 0x8761u16, 0x0042u16),
        device_ids()[19] == (0x0BDAu16, 0x8771u16, 0x0042u16),
        device_ids()[20] == (0x0BDAu16, 0x8822u16, 0x0042u16),
        device_ids()[21] == (0x0BDAu16, 0xC822u16, 0x0042u16),
        device_ids()[22] == (0x0BDAu16, 0xB023u16, 0x0042u16),
        device_ids()[23] == (0x0BDAu16, 0x4853u16, 0x0042u16),
        device_ids()[24] == (0x0BDAu16, 0x2B89u16, 0x0042u16),
        device_ids()[25] == (0x0BDAu16, 0xB720u16, 0x0042u16),
        device_ids()[26] == (0x0BDAu16, 0xD723u16, 0x0042u16),
        device_ids()[27] == (0x0BDAu16, 0x5B71u16, 0x0042u16),
        device_ids()[28] == (0x10B7u16, 0xB728u16, 0x0042u16),
        device_ids()[29] == (0x0CF3u16, 0xE300u16, 0x0002u16),
        device_ids()[30] == (0x0489u16, 0xE0A2u16, 0x0002u16),
        device_ids()[31] == (0x0CF3u16, 0xE005u16, 0x0002u16),
        device_ids()[32] == (0x0CF3u16, 0x3004u16, 0x0000u16),
        device_ids()[33] == (0x0489u16, 0xE036u16, 0x0002u16),
        device_ids()[34] == (0x0489u16, 0xE0B0u16, 0x0012u16),
        device_ids()[35] == (0x0489u16, 0xE0C5u16, 0x0012u16),
        device_ids()[36] == (0x0E8Du16, 0x7921u16, 0x001au16),
        device_ids()[37] == (0x0E8Du16, 0x7922u16, 0x001au16),
        device_ids()[38] == (0x0E8Du16, 0x7663u16, 0x0002u16),
        device_ids()[39] == (0x0E8Du16, 0x7668u16, 0x0012u16),
        device_ids()[40] == (0x0A12u16, 0x0001u16, 0x0000u16),
        device_ids()[41] == (0x0A12u16, 0x1000u16, 0x0000u16),
        device_ids()[42] == (0x0A12u16, 0x0100u16, 0x0000u16),
        device_ids()[43] == (0x0A12u16, 0x0101u16, 0x0000u16),
        device_ids()[44] == (0x1131u16, 0x1001u16, 0x0000u16),
        device_ids()[45] == (0x13D3u16, 0x3402u16, 0x0002u16),
        device_ids()[46] == (0x13D3u16, 0x3432u16, 0x0022u16),
        device_ids()[47] == (0x0930u16, 0x0225u16, 0x0000u16),
        device_ids()[48] == (0x04CAu16, 0x2006u16, 0x0002u16),
        device_ids()[49] == (0x04CAu16, 0x3014u16, 0x0002u16),
        device_ids()[50] == (0x1CF1u16, 0x0030u16, 0x0002u16),
{
}

/// The adapter at table position `i` is the first with its IDs and has
/// the given quirks and name.
pub open spec fn adapter_row(i: int, vendor_id: u16, product_id: u16, quirks: int, name: Seq<char>) -> bool {
    &&& first_match(vendor_id, product_id, i)
    &&& device_ids()[i].2 == quirks
    &&& device_names()[i] == name
}

proof fn lemma_row_0()
    ensures
        adapter_row(0, 0x0A5C, 0x21E8, BtQuirk::BcmBaudChange.code() + BtQuirk::NeedFirmware.code(), "BCM20702A1"@),
{
    lemma_table_values();
    assert forall|k: int| 0 <= k < 0 implies !((#[trigger] device_ids()[k]).0 == 0x0A5C && device_ids()[k].1 == 0x21E8) by {
        assert(false);
    }
}

proof fn lemma_row_1()
    ensures
        adapter_row(1, 0x0A5C, 0x21EC, BtQuirk::BcmBaudChange.code() + BtQuirk::NeedFirmware.code(), "BCM20702A0"@),
{
    lemma_table_values();
    assert forall|k: int| 0 <= k < 1 implies !((#[trigger] device_ids()[k]).0 == 0x0A5C && device_ids()[k].1 == 0x21EC) by {
        assert(k == 0);
    }
}

proof fn lemma_row_2()
    ensures
        adapter_row(2, 0x0A5C, 0x216F, BtQuirk::BcmBaudChange.code() + BtQuirk::NeedFirmware.code(), "BCM43142A0"@),
{
    lemma_table_values();
    assert forall|k: int| 0 <= k < 2 implies !((#[trigger] device_ids()[k]).0 == 0x0A5C && device_ids()[k].1 == 0x216F) by {
        assert(k == 0 || k == 1);
    }
}

proof fn lemma_row_3()
    ensures
        adapter_row(3, 0x0A5C, 0x21D7, BtQuirk::BcmBaudChange.code() + BtQuirk::NeedFirmware.code(), "BCM4330"@),
{
    lemma_table_values();
    assert forall|k: int| 0 <= k < 3 implies !((#[trigger] device_ids()[k]).0 == 0x0A5C && device_ids()[k].1 == 0x21D7) by {
        assert(k == 0 || k == 1 || k == 2);
    }
}

proof fn lemma_row_4()
    ensures
        adapter_row(4, 0x0A5C, 0x22BE, BtQuirk::BcmBaudChange.code() + BtQuirk::NeedFirmware.code(), "BCM2076B1"@),
{
    lemma_table_values();
    assert forall|k: int| 0 <= k < 4 implies !((#[trigger] device_ids()[k]).0 == 0x0A5C && device_ids()[k].1 == 0x22BE) by {
        assert(k == 0 || k == 1 || k == 2 || k == 3);
    }
}

proof fn lemma_row_5()
    ensures
        adapter_row(5, 0x0A5C, 0x21F1, BtQuirk::BcmBaudChange.code() + BtQuirk::NeedFirmware.code(), "BCM2045A0"@),
{
    lemma_table_values();
    assert forall|k: int| 0 <= k < 5 implies !((#[trigger] device_ids()[k]).0 == 0x0A5C && device_ids()[k].1 == 0x21F1) by {
        assert(k == 0 || k == 1 || k == 2 || k == 3 || k == 4);
    }
}

proof fn lemma_row_6()
    ensures
        adapter_row(6, 0x0489, 0xE07A, BtQuirk::BcmBaudChange.code() + BtQuirk::NeedFirmware.code(), "BCM4324B3"@),
{
    lemma_table_values();
    assert forall|k: int| 0 <= k < 6 implies !((#[trigger] device_ids()[k]).0 == 0x0489 && device_ids()[k].1 == 0xE07A) by {
        assert(k == 0 || k == 1 || k == 2 || k == 3 || k == 4 || k == 5);
    }
}

proof fn lemma_row_7()
    ensures
        adapter_row(7, 0x0489, 0xE0CD, BtQuirk::BcmBaudChange.code() + BtQuirk::NeedFirmware.code(), "BCM4350C5"@),
{
    lemma_table_values();
    assert forall|k: int| 0 <= k < 7 implies !((#[trigger] device_ids()[k]).0 == 0x0489 && device_ids()[k].1 == 0xE0CD) by {
        assert(k == 0 || k == 1 || k == 2 || k == 3 || k == 4 || k == 5 || k == 6);
    }
}

proof fn lemma_row_8()
    ensures
        adapter_row(8, 0x413C, 0x8143, BtQuirk::BcmBaudChange.code() + BtQuirk::NeedFirmware.code(), "DW1560 (BCM20702)"@),
{
    lemma_table_values();
    assert forall|k: int| 0 <= k < 8 implies !((#[trigger] device_ids()[k]).0 == 0x413C && device_ids()[k].1 == 0x8143) by {
        assert(k == 0 || k == 1 || k == 2 || k == 3 || k == 4 || k == 5 || k == 6 || k == 7);
    }
}

proof fn lemma_row_9()
    ensures
        adapter_row(9, 0x8087, 0x0025, BtQuirk::NeedFirmware.code() + BtQuirk::IntelDebug.code(), "Intel Wireless-AC 7260"@),
{
    lemma_table_values();
    assert forall|k: int| 0 <= k < 9 implies !((#[trigger] device_ids()[k]).0 == 0x8087 && device_ids()[k].1 == 0x0025) by {
        assert(k == 0 || k == 1 || k == 2 || k == 3 || k == 4 || k == 5 || k == 6 || k == 7 || k == 8);
    }
}

proof fn lemma_row_10()
    ensures
        adapter_row(10, 0x8087, 0x0026, BtQuirk::NeedFirmware.code() + BtQuirk::IntelDebug.code(), "Intel Wireless-AC 3160"@),
{
    lemma_table_values();
    assert forall|k: int| 0 <= k < 10 implies !((#[trigger] device_ids()[k]).0 == 0x8087 && device_ids()[k].1 == 0x0026) by {
        assert(k == 0 || k == 1 || k == 2 || k == 3 || k == 4 || k == 5 || k == 6 || k == 7 || k == 8 || k == 9);
    }
}

proof fn lemma_row_11()
    ensures
        adapter_row(11, 0x8087, 0x0A2A, BtQuirk::NeedFirmware.code() + BtQuirk::IntelDebug.code(), "Intel Wireless-AC 8260"@),
{
    lemma_table_values();
    assert forall|k: int| 0 <= k < 11 implies !((#[trigger] device_ids()[k]).0 == 0x8087 && device_ids()[k].1 == 0x0A2A) by {
        assert(k == 0 || k == 1 || k == 2 || k == 3 || k == 4 || k == 5 || k == 6 || k == 7 || k == 8 || k == 9 || k == 10);
    }
}

proof fn lemma_row_12()
    ensures
        adapter_row(12, 0x8087, 0x0A2B, BtQuirk::NeedFirmware.code() + BtQuirk::IntelDebug.code(), "Intel Wireless-AC 8265"@),
{
    lemma_table_values();
    assert forall|k: int| 0 <= k < 12 implies !((#[trigger] device_ids()[k]).0 == 0x8087 && device_ids()[k].1 == 0x0A2B) by {
        assert(k == 0 || k == 1 || k == 2 || k == 3 || k == 4 || k == 5 || k == 6 || k == 7 || k == 8 || k == 9 || k == 10 || k == 11);
    }
}

proof fn lemma_row_13()
    ensures
        adapter_row(13, 0x8087, 0x0AAA, BtQuirk::NeedFirmware.code() + BtQuirk::IntelDebug.code(), "Intel Wireless-AC 9560"@),
{
    lemma_table_values();
    assert forall|k: int| 0 <= k < 13 implies !((#[trigger] device_ids()[k]).0 == 0x8087 && device_ids()[k].1 == 0x0AAA) by {
        assert(k == 0 || k == 1 || k == 2 || k == 3 || k == 4 || k == 5 || k == 6 || k == 7 || k == 8 || k == 9 || k == 10 || k == 11 || k == 12);
    }
}

proof fn lemma_row_14()
    ensures
        adapter_row(14, 0x8087, 0x0AA8, BtQuirk::NeedFirmware.code() + BtQuirk::HasIsoData.code() + BtQuirk::IntelDebug.code(), "Intel AX200 (Cyborg)"@),
{
    lemma_table_values();
    assert forall|k: int| 0 <= k < 14 implies !((#[trigger] device_ids()[k]).0 == 0x8087 && device_ids()[k].1 == 0x0AA8) by {
        assert(k == 0 || k == 1 || k == 2 || k == 3 || k == 4 || k == 5 || k == 6 || k == 7 || k == 8 || k == 9 || k == 10 || k == 11 || k == 12 || k == 13);
    }
}

proof fn lemma_row_15()
    ensures
        adapter_row(15, 0x8087, 0x0029, BtQuirk::NeedFirmware.code() + BtQuirk::HasIsoData.code() + BtQuirk::IntelDebug.code(), "Intel AX201 (Jefferson Peak)"@),
{
    lemma_table_values();
    assert forall|k: int| 0 <= k < 15 implies !((#[trigger] device_ids()[k]).0 == 0x8087 && device_ids()[k].1 == 0x0029) by {
        assert(k == 0 || k == 1 || k == 2 || k == 3 || k == 4 || k == 5 || k == 6 || k == 7 || k == 8 || k == 9 || k == 10 || k == 11 || k == 12 || k == 13 || k == 14);
    }
}

proof fn lemma_row_16()
    ensures
        adapter_row(16, 0x8087, 0x0032, BtQuirk::NeedFirmware.code() + BtQuirk::HasIsoData.code() + BtQuirk::IntelDebug.code(), "Intel AX210 (Garrison Peak)"@),
{
    lemma_table_values();
    assert forall|k: int| 0 <= k < 16 implies !((#[trigger] device_ids()[k]).0 == 0x8087 && device_ids()[k].1 == 0x0032) by {
        assert(k == 0 || k == 1 || k == 2 || k == 3 || k == 4 || k == 5 || k == 6 || k == 7 || k == 8 || k == 9 || k == 10 || k == 11 || k == 12 || k == 13 || k == 14 || k == 15);
    }
}

proof fn lemma_row_17()
    ensures
        adapter_row(17, 0x8087, 0x0033, BtQuirk::NeedFirmware.code() + BtQuirk::HasIsoData.code() + BtQuirk::IntelDebug.code(), "Intel AX211"@),
{
    lemma_table_values();
    assert forall|k: int| 0 <= k < 17 implies !((#[trigger] device_ids()[k]).0 == 0x8087 && device_ids()[k].1 == 0x0033) by {
        assert(k == 0 || k == 1 || k == 2 || k == 3 || k == 4 || k == 5 || k == 6 || k == 7 || k == 8 || k == 9 || k == 10 || k == 11 || k == 12 || k == 13 || k == 14 || k == 15 || k == 16);
    }
}

proof fn lemma_row_18()
    ensures
        adapter_row(18, 0x0BDA, 0x8761, BtQuirk::NeedFirmware.code() + BtQuirk::RtlExtensions.code(), "RTL8761BUV (BT 5.0)"@),
{
    lemma_table_values();
    assert forall|k: int| 0 <= k < 18 implies !((#[trigger] device_ids()[k]).0 == 0x0BDA && device_ids()[k].1 == 0x8761) by {
        assert(k == 0 || k == 1 || k == 2 || k == 3 || k == 4 || k == 5 || k == 6 || k == 7 || k == 8 || k == 9 || k == 10 || k == 11 || k == 12 || k == 13 || k == 14 || k == 15 || k == 16 || k == 17);
    }
}

proof fn lemma_row_19()
    ensures
        adapter_row(19, 0x0BDA, 0x8771, BtQuirk::NeedFirmware.code() + BtQuirk::RtlExtensions.code(), "RTL8771BUV (BT 5.1)"@),
{
    lemma_table_values();
    assert forall|k: int| 0 <= k < 19 implies !((#[trigger] device_ids()[k]).0 == 0x0BDA && device_ids()[k].1 == 0x8771) by {
        assert(k == 0 || k == 1 || k == 2 || k == 3 || k == 4 || k == 5 || k == 6 || k == 7 || k == 8 || k == 9 || k == 10 || k == 11 || k == 12 || k == 13 || k == 14 || k == 15 || k == 16 || k == 17 || k == 18);
    }
}

proof fn lemma_row_20()
    ensures
        adapter_row(20, 0x0BDA, 0x8822, BtQuirk::NeedFirmware.code() + BtQuirk::RtlExtensions.code(), "RTL8822CE"@),
{
    lemma_table_values();
    assert forall|k: int| 0 <= k < 20 implies !((#[trigger] device_ids()[k]).0 == 0x0BDA && device_ids()[k].1 == 0x8822) by {
        assert(k == 0 || k == 1 || k == 2 || k == 3 || k == 4 || k == 5 || k == 6 || k == 7 || k == 8 || k == 9 || k == 10 || k == 11 || k == 12 || k == 13 || k == 14 || k == 15 || k == 16 || k == 17 || k == 18 || k == 19);
    }
}

proof fn lemma_row_21()
    ensures
        adapter_row(21, 0x0BDA, 0xC822, BtQuirk::NeedFirmware.code() + BtQuirk::RtlExtensions.code(), "RTL8822CU"@),
{
    lemma_table_values();
    assert forall|k: int| 0 <= k < 21 implies !((#[trigger] device_ids()[k]).0 == 0x0BDA && device_ids()[k].1 == 0xC822) by {
        assert(k == 0 || k == 1 || k == 2 || k == 3 || k == 4 || k == 5 || k == 6 || k == 7 || k == 8 || k == 9 || k == 10 || k == 11 || k == 12 || k == 13 || k == 14 || k == 15 || k == 16 || k == 17 || k == 18 || k == 19 || k == 20);
    }
}

proof fn lemma_row_22()
    ensures
        adapter_row(22, 0x0BDA, 0xB023, BtQuirk::NeedFirmware.code() + BtQuirk::RtlExtensions.code(), "RTL8821CE"@),
{
    lemma_table_values();
    assert forall|k: int| 0 <= k < 22 implies !((#[trigger] device_ids()[k]).0 == 0x0BDA && device_ids()[k].1 == 0xB023) by {
        assert(k == 0 || k == 1 || k == 2 || k == 3 || k == 4 || k == 5 || k == 6 || k == 7 || k == 8 || k == 9 || k == 10 || k == 11 || k == 12 || k == 13 || k == 14 || k == 15 || k == 16 || k == 17 || k == 18 || k == 19 || k == 20 || k == 21);
    }
}

proof fn lemma_row_23()
    ensures
        adapter_row(23, 0x0BDA, 0x4853, BtQuirk::NeedFirmware.code() + BtQuirk::RtlExtensions.code(), "RTL8822BU"@),
{
    lemma_table_values();
    assert forall|k: int| 0 <= k < 23 implies !((#[trigger] device_ids()[k]).0 == 0x0BDA && device_ids()[k].1 == 0x4853) by {
        assert(k == 0 || k == 1 || k == 2 || k == 3 || k == 4 || k == 5 || k == 6 || k == 7 || k == 8 || k == 9 || k == 10 || k == 11 || k == 12 || k == 13 || k == 14 || k == 15 || k == 16 || k == 17 || k == 18 || k == 19 || k == 20 || k == 21 || k == 22);
    }
}

proof fn lemma_row_24()
    ensures
        adapter_row(24, 0x0BDA, 0x2B89, BtQuirk::NeedFirmware.code() + BtQuirk::RtlExtensions.code(), "RTL8723BE"@),
{
    lemma_table_values();
    assert forall|k: int| 0 <= k < 24 implies !((#[trigger] device_ids()[k]).0 == 0x0BDA && device_ids()[k].1 == 0x2B89) by {
        assert(k == 0 || k == 1 || k == 2 || k == 3 || k == 4 || k == 5 || k == 6 || k == 7 || k == 8 || k == 9 || k == 10 || k == 11 || k == 12 || k == 13 || k == 14 || k == 15 || k == 16 || k == 17 || k == 18 || k == 19 || k == 20 || k == 21 || k == 22 || k == 23);
    }
}

proof fn lemma_row_25()
    ensures
        adapter_row(25, 0x0BDA, 0xB720, BtQuirk::NeedFirmware.code() + BtQuirk::RtlExtensions.code(), "RTL8723BU"@),
{
    lemma_table_values();
    assert forall|k: int| 0 <= k < 25 implies !((#[trigger] device_ids()[k]).0 == 0x0BDA && device_ids()[k].1 == 0xB720) by {
        assert(k == 0 || k == 1 || k == 2 || k == 3 || k == 4 || k == 5 || k == 6 || k == 7 || k == 8 || k == 9 || k == 10 || k == 11 || k == 12 || k == 13 || k == 14 || k == 15 || k == 16 || k == 17 || k == 18 || k == 19 || k == 20 || k == 21 || k == 22 || k == 23 || k == 24);
    }
}

proof fn lemma_row_26()
    ensures
        adapter_row(26, 0x0BDA, 0xD723, BtQuirk::NeedFirmware.code() + BtQuirk::RtlExtensions.code(), "RTL8723DE"@),
{
    lemma_table_values();
    assert forall|k: int| 0 <= k < 26 implies !((#[trigger] device_ids()[k]).0 == 0x0BDA && device_ids()[k].1 == 0xD723) by {
        assert(k == 0 || k == 1 || k == 2 || k == 3 || k == 4 || k == 5 || k == 6 || k == 7 || k == 8 || k == 9 || k == 10 || k == 11 || k == 12 || k == 13 || k == 14 || k == 15 || k == 16 || k == 17 || k == 18 || k == 19 || k == 20 || k == 21 || k == 22 || k == 23 || k == 24 || k == 25);
    }
}

proof fn lemma_row_27()
    ensures
        adapter_row(27, 0x0BDA, 0x5B71, BtQuirk::NeedFirmware.code() + BtQuirk::RtlExtensions.code(), "RTL8188EU (BT combo)"@),
{
    lemma_table_values();
    assert forall|k: int| 0 <= k < 27 implies !((#[trigger] device_ids()[k]).0 == 0x0BDA && device_ids()[k].1 == 0x5B71) by {
        assert(k == 0 || k == 1 || k == 2 || k == 3 || k == 4 || k == 5 || k == 6 || k == 7 || k == 8 || k == 9 || k == 10 || k == 11 || k == 12 || k == 13 || k == 14 || k == 15 || k == 16 || k == 17 || k == 18 || k == 19 || k == 20 || k == 21 || k == 22 || k == 23 || k == 24 || k == 25 || k == 26);
    }
}

proof fn lemma_row_28()
    ensures
        adapter_row(28, 0x10B7, 0xB728, BtQuirk::NeedFirmware.code() + BtQuirk::RtlExtensions.code(), "RTL8723DS (Ampak)"@),
{
    lemma_table_values();
    assert forall|k: int| 0 <= k < 28 implies !((#[trigger] device_ids()[k]).0 == 0x10B7 && device_ids()[k].1 == 0xB728) by {
        assert(k == 0 || k == 1 || k == 2 || k == 3 || k == 4 || k == 5 || k == 6 || k == 7 || k == 8 || k == 9 || k == 10 || k == 11 || k == 12 || k == 13 || k == 14 || k == 15 || k == 16 || k == 17 || k == 18 || k == 19 || k == 20 || k == 21 || k == 22 || k == 23 || k == 24 || k == 25 || k == 26 || k == 27);
    }
}

proof fn lemma_row_29()
    ensures
        adapter_row(29, 0x0CF3, 0xE300, BtQuirk::NeedFirmware.code() as int, "Qualcomm QCA6174A (WCN3680B)"@),
{
    lemma_table_values();
    assert forall|k: int| 0 <= k < 29 implies !((#[trigger] device_ids()[k]).0 == 0x0CF3 && device_ids()[k].1 == 0xE300) by {
        assert(k == 0 || k == 1 || k == 2 || k == 3 || k == 4 || k == 5 || k == 6 || k == 7 || k == 8 || k == 9 || k == 10 || k == 11 || k == 12 || k == 13 || k == 14 || k == 15 || k == 16 || k == 17 || k == 18 || k == 19 || k == 20 || k == 21 || k == 22 || k == 23 || k == 24 || k == 25 || k == 26 || k == 27 || k == 28);
    }
}

proof fn lemma_row_30()
    ensures
        adapter_row(30, 0x0489, 0xE0A2, BtQuirk::NeedFirmware.code() as int, "QCA9377 (WCN3610)"@),
{
    lemma_table_values();
    assert forall|k: int| 0 <= k < 30 implies !((#[trigger] device_ids()[k]).0 == 0x0489 && device_ids()[k].1 == 0xE0A2) by {
        assert(k == 0 || k == 1 || k == 2 || k == 3 || k == 4 || k == 5 || k == 6 || k == 7 || k == 8 || k == 9 || k == 10 || k == 11 || k == 12 || k == 13 || k == 14 || k == 15 || k == 16 || k == 17 || k == 18 || k == 19 || k == 20 || k == 21 || k == 22 || k == 23 || k == 24 || k == 25 || k == 26 || k == 27 || k == 28 || k == 29);
    }
}

proof fn lemma_row_31()
    ensures
        adapter_row(31, 0x0CF3, 0xE005, BtQuirk::NeedFirmware.code() as int, "AR3012 (Atheros)"@),
{
    lemma_table_values();
    assert forall|k: int| 0 <= k < 31 implies !((#[trigger] device_ids()[k]).0 == 0x0CF3 && device_ids()[k].1 == 0xE005) by {
        assert(k == 0 || k == 1 || k == 2 || k == 3 || k == 4 || k == 5 || k == 6 || k == 7 || k == 8 || k == 9 || k == 10 || k == 11 || k == 12 || k == 13 || k == 14 || k == 15 || k == 16 || k == 17 || k == 18 || k == 19 || k == 20 || k == 21 || k == 22 || k == 23 || k == 24 || k == 25 || k == 26 || k == 27 || k == 28 || k == 29 || k == 30);
    }
}

proof fn lemma_row_32()
    ensures
        adapter_row(32, 0x0CF3, 0x3004, BtQuirk::NoQuirks.code() as int, "AR3011 (Atheros)"@),
{
    lemma_table_values();
    assert forall|k: int| 0 <= k < 32 implies !((#[trigger] device_ids()[k]).0 == 0x0CF3 && device_ids()[k].1 == 0x3004) by {
        assert(k == 0 || k == 1 || k == 2 || k == 3 || k == 4 || k == 5 || k == 6 || k == 7 || k == 8 || k == 9 || k == 10 || k == 11 || k == 12 || k == 13 || k == 14 || k == 15 || k == 16 || k == 17 || k == 18 || k == 19 || k == 20 || k == 21 || k == 22 || k == 23 || k == 24 || k == 25 || k == 26 || k == 27 || k == 28 || k == 29 || k == 30 || k == 31);
    }
}

proof fn lemma_row_33()
    ensures
        adapter_row(33, 0x0489, 0xE036, BtQuirk::NeedFirmware.code() as int, "QCA61x4A"@),
{
    lemma_table_values();
    assert forall|k: int| 0 <= k < 33 implies !((#[trigger] device_ids()[k]).0 == 0x0489 && device_ids()[k].1 == 0xE036) by {
        assert(k == 0 || k == 1 || k == 2 || k == 3 || k == 4 || k == 5 || k == 6 || k == 7 || k == 8 || k == 9 || k == 10 || k == 11 || k == 12 || k == 13 || k == 14 || k == 15 || k == 16 || k == 17 || k == 18 || k == 19 || k == 20 || k == 21 || k == 22 || k == 23 || k == 24 || k == 25 || k == 26 || k == 27 || k == 28 || k == 29 || k == 30 || k == 31 || k == 32);
    }
}

proof fn lemma_row_34()
    ensures
        adapter_row(34, 0x0489, 0xE0B0, BtQuirk::NeedFirmware.code() + BtQuirk::HasIsoData.code(), "QCA6390 (WCN685x)"@),
{
    lemma_table_values();
    assert forall|k: int| 0 <= k < 34 implies !((#[trigger] device_ids()[k]).0 == 0x0489 && device_ids()[k].1 == 0xE0B0) by {
        assert(k == 0 || k == 1 || k == 2 || k == 3 || k == 4 || k == 5 || k == 6 || k == 7 || k == 8 || k == 9 || k == 10 || k == 11 || k == 12 || k == 13 || k == 14 || k == 15 || k == 16 || k == 17 || k == 18 || k == 19 || k == 20 || k == 21 || k == 22 || k == 23 || k == 24 || k == 25 || k == 26 || k == 27 || k == 28 || k == 29 || k == 30 || k == 31 || k == 32 || k == 33);
    }
}

proof fn lemma_row_35()
    ensures
        adapter_row(35, 0x0489, 0xE0C5, BtQuirk::NeedFirmware.code() + BtQuirk::HasIsoData.code(), "QCA6696 (WCN6856)"@),
{
    lemma_table_values();
    assert forall|k: int| 0 <= k < 35 implies !((#[trigger] device_ids()[k]).0 == 0x0489 && device_ids()[k].1 == 0xE0C5) by {
        assert(k == 0 || k == 1 || k == 2 || k == 3 || k == 4 || k == 5 || k == 6 || k == 7 || k == 8 || k == 9 || k == 10 || k == 11 || k == 12 || k == 13 || k == 14 || k == 15 || k == 16 || k == 17 || k == 18 || k == 19 || k == 20 || k == 21 || k == 22 || k == 23 || k == 24 || k == 25 || k == 26 || k == 27 || k == 28 || k == 29 || k == 30 || k == 31 || k == 32 || k == 33 || k == 34);
    }
}

proof fn lemma_row_36()
    ensures
        adapter_row(36, 0x0E8D, 0x7921, BtQuirk::NeedFirmware.code() + BtQuirk::NeedResetAfterFw.code() + BtQuirk::HasIsoData.code(), "MT7921 (MT7961)"@),
{
    lemma_table_values();
    assert forall|k: int| 0 <= k < 36 implies !((#[trigger] device_ids()[k]).0 == 0x0E8D && device_ids()[k].1 == 0x7921) by {
        assert(k == 0 || k == 1 || k == 2 || k == 3 || k == 4 || k == 5 || k == 6 || k == 7 || k == 8 || k == 9 || k == 10 || k == 11 || k == 12 || k == 13 || k == 14 || k == 15 || k == 16 || k == 17 || k == 18 || k == 19 || k == 20 || k == 21 || k == 22 || k == 23 || k == 24 || k == 25 || k == 26 || k == 27 || k == 28 || k == 29 || k == 30 || k == 31 || k == 32 || k == 33 || k == 34 || k == 35);
    }
}

proof fn lemma_row_37()
    ensures
        adapter_row(37, 0x0E8D, 0x7922, BtQuirk::NeedFirmware.code() + BtQuirk::NeedResetAfterFw.code() + BtQuirk::HasIsoData.code(), "MT7922 (Filogic 330)"@),
{
    lemma_table_values();
    assert forall|k: int| 0 <= k < 37 implies !((#[trigger] device_ids()[k]).0 == 0x0E8D && device_ids()[k].1 == 0x7922) by {
        assert(k == 0 || k == 1 || k == 2 || k == 3 || k == 4 || k == 5 || k == 6 || k == 7 || k == 8 || k == 9 || k == 10 || k == 11 || k == 12 || k == 13 || k == 14 || k == 15 || k == 16 || k == 17 || k == 18 || k == 19 || k == 20 || k == 21 || k == 22 || k == 23 || k == 24 || k == 25 || k == 26 || k == 27 || k == 28 || k == 29 || k == 30 || k == 31 || k == 32 || k == 33 || k == 34 || k == 35 || k == 36);
    }
}

proof fn lemma_row_38()
    ensures
        adapter_row(38, 0x0E8D, 0x7663, BtQuirk::NeedFirmware.code() as int, "MT7663U"@),
{
    lemma_table_values();
    assert forall|k: int| 0 <= k < 38 implies !((#[trigger] device_ids()[k]).0 == 0x0E8D && device_ids()[k].1 == 0x7663) by {
        assert(k == 0 || k == 1 || k == 2 || k == 3 || k == 4 || k == 5 || k == 6 || k == 7 || k == 8 || k == 9 || k == 10 || k == 11 || k == 12 || k == 13 || k == 14 || k == 15 || k == 16 || k == 17 || k == 18 || k == 19 || k == 20 || k == 21 || k == 22 || k == 23 || k == 24 || k == 25 || k == 26 || k == 27 || k == 28 || k == 29 || k == 30 || k == 31 || k == 32 || k == 33 || k == 34 || k == 35 || k == 36 || k == 37);
    }
}

proof fn lemma_row_39()
    ensures
        adapter_row(39, 0x0E8D, 0x7668, BtQuirk::NeedFirmware.code() + BtQuirk::HasIsoData.code(), "MT7668U"@),
{
    lemma_table_values();
    assert forall|k: int| 0 <= k < 39 implies !((#[trigger] device_ids()[k]).0 == 0x0E8D && device_ids()[k].1 == 0x7668) by {
        assert(k == 0 || k == 1 || k == 2 || k == 3 || k == 4 || k == 5 || k == 6 || k == 7 || k == 8 || k == 9 || k == 10 || k == 11 || k == 12 || k == 13 || k == 14 || k == 15 || k == 16 || k == 17 || k == 18 || k == 19 || k == 20 || k == 21 || k == 22 || k == 23 || k == 24 || k == 25 || k == 26 || k == 27 || k == 28 || k == 29 || k == 30 || k == 31 || k == 32 || k == 33 || k == 34 || k == 35 || k == 36 || k == 37 || k == 38);
    }
}

proof fn lemma_row_40()
    ensures
        adapter_row(40, 0x0A12, 0x0001, BtQuirk::NoQuirks.code() as int, "CSR BlueCore4"@),
{
    lemma_table_values();
    assert forall|k: int| 0 <= k < 40 implies !((#[trigger] device_ids()[k]).0 == 0x0A12 && device_ids()[k].1 == 0x0001) by {
        assert(k == 0 || k == 1 || k == 2 || k == 3 || k == 4 || k == 5 || k == 6 || k == 7 || k == 8 || k == 9 || k == 10 || k == 11 || k == 12 || k == 13 || k == 14 || k == 15 || k == 16 || k == 17 || k == 18 || k == 19 || k == 20 || k == 21 || k == 22 || k == 23 || k == 24 || k == 25 || k == 26 || k == 27 || k == 28 || k == 29 || k == 30 || k == 31 || k == 32 || k == 33 || k == 34 || k == 35 || k == 36 || k == 37 || k == 38 || k == 39);
    }
}

proof fn lemma_row_41()
    ensures
        adapter_row(41, 0x0A12, 0x1000, BtQuirk::NoQuirks.code() as int, "CSR BlueCore5"@),
{
    lemma_table_values();
    assert forall|k: int| 0 <= k < 41 implies !((#[trigger] device_ids()[k]).0 == 0x0A12 && device_ids()[k].1 == 0x1000) by {
        assert(k == 0 || k == 1 || k == 2 || k == 3 || k == 4 || k == 5 || k == 6 || k == 7 || k == 8 || k == 9 || k == 10 || k == 11 || k == 12 || k == 13 || k == 14 || k == 15 || k == 16 || k == 17 || k == 18 || k == 19 || k == 20 || k == 21 || k == 22 || k == 23 || k == 24 || k == 25 || k == 26 || k == 27 || k == 28 || k == 29 || k == 30 || k == 31 || k == 32 || k == 33 || k == 34 || k == 35 || k == 36 || k == 37 || k == 38 || k == 39 || k == 40);
    }
}

proof fn lemma_row_42()
    ensures
        adapter_row(42, 0x0A12, 0x0100, BtQuirk::NoQuirks.code() as int, "CSR8510 A10"@),
{
    lemma_table_values();
    assert forall|k: int| 0 <= k < 42 implies !((#[trigger] device_ids()[k]).0 == 0x0A12 && device_ids()[k].1 == 0x0100) by {
        assert(k == 0 || k == 1 || k == 2 || k == 3 || k == 4 || k == 5 || k == 6 || k == 7 || k == 8 || k == 9 || k == 10 || k == 11 || k == 12 || k == 13 || k == 14 || k == 15 || k == 16 || k == 17 || k == 18 || k == 19 || k == 20 || k == 21 || k == 22 || k == 23 || k == 24 || k == 25 || k == 26 || k == 27 || k == 28 || k == 29 || k == 30 || k == 31 || k == 32 || k == 33 || k == 34 || k == 35 || k == 36 || k == 37 || k == 38 || k == 39 || k == 40 || k == 41);
    }
}

proof fn lemma_row_43()
    ensures
        adapter_row(43, 0x0A12, 0x0101, BtQuirk::NoQuirks.code() as int, "CSR8510 A12"@),
{
    lemma_table_values();
    assert forall|k: int| 0 <= k < 43 implies !((#[trigger] device_ids()[k]).0 == 0x0A12 && device_ids()[k].1 == 0x0101) by {
        assert(k == 0 || k == 1 || k == 2 || k == 3 || k == 4 || k == 5 || k == 6 || k == 7 || k == 8 || k == 9 || k == 10 || k == 11 || k == 12 || k == 13 || k == 14 || k == 15 || k == 16 || k == 17 || k == 18 || k == 19 || k == 20 || k == 21 || k == 22 || k == 23 || k == 24 || k == 25 || k == 26 || k == 27 || k == 28 || k == 29 || k == 30 || k == 31 || k == 32 || k == 33 || k == 34 || k == 35 || k == 36 || k == 37 || k == 38 || k == 39 || k == 40 || k == 41 || k == 42);
    }
}

proof fn lemma_row_44()
    ensures
        adapter_row(44, 0x1131, 0x1001, BtQuirk::NoQuirks.code() as int, "Integrated System Solution (ISSC)"@),
{
    lemma_table_values();
    assert forall|k: int| 0 <= k < 44 implies !((#[trigger] device_ids()[k]).0 == 0x1131 && device_ids()[k].1 == 0x1001) by {
        assert(k == 0 || k == 1 || k == 2 || k == 3 || k == 4 || k == 5 || k == 6 || k == 7 || k == 8 || k == 9 || k == 10 || k == 11 || k == 12 || k == 13 || k == 14 || k == 15 || k == 16 || k == 17 || k == 18 || k == 19 || k == 20 || k == 21 || k == 22 || k == 23 || k == 24 || k == 25 || k == 26 || k == 27 || k == 28 || k == 29 || k == 30 || k == 31 || k == 32 || k == 33 || k == 34 || k == 35 || k == 36 || k == 37 || k == 38 || k == 39 || k == 40 || k == 41 || k == 42 || k == 43);
    }
}

proof fn lemma_row_45()
    ensures
        adapter_row(45, 0x13D3, 0x3402, BtQuirk::NeedFirmware.code() as int, "Azurewave (BCM-based)"@),
{
    lemma_table_values();
    assert forall|k: int| 0 <= k < 45 implies !((#[trigger] device_ids()[k]).0 == 0x13D3 && device_ids()[k].1 == 0x3402) by {
        assert(k == 0 || k == 1 || k == 2 || k == 3 || k == 4 || k == 5 || k == 6 || k == 7 || k == 8 || k == 9 || k == 10 || k == 11 || k == 12 || k == 13 || k == 14 || k == 15 || k == 16 || k == 17 || k == 18 || k == 19 || k == 20 || k == 21 || k == 22 || k == 23 || k == 24 || k == 25 || k == 26 || k == 27 || k == 28 || k == 29 || k == 30 || k == 31 || k == 32 || k == 33 || k == 34 || k == 35 || k == 36 || k == 37 || k == 38 || k == 39 || k == 40 || k == 41 || k == 42 || k == 43 || k == 44);
    }
}

proof fn lemma_row_46()
    ensures
        adapter_row(46, 0x13D3, 0x3432, BtQuirk::NeedFirmware.code() + BtQuirk::IntelDebug.code(), "Azurewave (Intel-based)"@),
{
    lemma_table_values();
    assert forall|k: int| 0 <= k < 46 implies !((#[trigger] device_ids()[k]).0 == 0x13D3 && device_ids()[k].1 == 0x3432) by {
        assert(k == 0 || k == 1 || k == 2 || k == 3 || k == 4 || k == 5 || k == 6 || k == 7 || k == 8 || k == 9 || k == 10 || k == 11 || k == 12 || k == 13 || k == 14 || k == 15 || k == 16 || k == 17 || k == 18 || k == 19 || k == 20 || k == 21 || k == 22 || k == 23 || k == 24 || k == 25 || k == 26 || k == 27 || k == 28 || k == 29 || k == 30 || k == 31 || k == 32 || k == 33 || k == 34 || k == 35 || k == 36 || k == 37 || k == 38 || k == 39 || k == 40 || k == 41 || k == 42 || k == 43 || k == 44 || k == 45);
    }
}

proof fn lemma_row_47()
    ensures
        adapter_row(47, 0x0930, 0x0225, BtQuirk::NoQuirks.code() as int, "Toshiba BT Stack (generic)"@),
{
    lemma_table_values();
    assert forall|k: int| 0 <= k < 47 implies !((#[trigger] device_ids()[k]).0 == 0x0930 && device_ids()[k].1 == 0x0225) by {
        assert(k == 0 || k == 1 || k == 2 || k == 3 || k == 4 || k == 5 || k == 6 || k == 7 || k == 8 || k == 9 || k == 10 || k == 11 || k == 12 || k == 13 || k == 14 || k == 15 || k == 16 || k == 17 || k == 18 || k == 19 || k == 20 || k == 21 || k == 22 || k == 23 || k == 24 || k == 25 || k == 26 || k == 27 || k == 28 || k == 29 || k == 30 || k == 31 || k == 32 || k == 33 || k == 34 || k == 35 || k == 36 || k == 37 || k == 38 || k == 39 || k == 40 || k == 41 || k == 42 || k == 43 || k == 44 || k == 45 || k == 46);
    }
}

proof fn lemma_row_48()
    ensures
        adapter_row(48, 0x04CA, 0x2006, BtQuirk::NeedFirmware.code() as int, "Lite-On (Broadcom based)"@),
{
    lemma_table_values();
    assert forall|k: int| 0 <= k < 48 implies !((#[trigger] device_ids()[k]).0 == 0x04CA && device_ids()[k].1 == 0x2006) by {
        assert(k == 0 || k == 1 || k == 2 || k == 3 || k == 4 || k == 5 || k == 6 || k == 7 || k == 8 || k == 9 || k == 10 || k == 11 || k == 12 || k == 13 || k == 14 || k == 15 || k == 16 || k == 17 || k == 18 || k == 19 || k == 20 || k == 21 || k == 22 || k == 23 || k == 24 || k == 25 || k == 26 || k == 27 || k == 28 || k == 29 || k == 30 || k == 31 || k == 32 || k == 33 || k == 34 || k == 35 || k == 36 || k == 37 || k == 38 || k == 39 || k == 40 || k == 41 || k == 42 || k == 43 || k == 44 || k == 45 || k == 46 || k == 47);
    }
}

proof fn lemma_row_49()
    ensures
        adapter_row(49, 0x04CA, 0x3014, BtQuirk::NeedFirmware.code() as int, "Lite-On (MediaTek)"@),
{
    lemma_table_values();
    assert forall|k: int| 0 <= k < 49 implies !((#[trigger] device_ids()[k]).0 == 0x04CA && device_ids()[k].1 == 0x3014) by {
        assert(k == 0 || k == 1 || k == 2 || k == 3 || k == 4 || k == 5 || k == 6 || k == 7 || k == 8 || k == 9 || k == 10 || k == 11 || k == 12 || k == 13 || k == 14 || k == 15 || k == 16 || k == 17 || k == 18 || k == 19 || k == 20 || k == 21 || k == 22 || k == 23 || k == 24 || k == 25 || k == 26 || k == 27 || k == 28 || k == 29 || k == 30 || k == 31 || k == 32 || k == 33 || k == 34 || k == 35 || k == 36 || k == 37 || k == 38 || k == 39 || k == 40 || k == 41 || k == 42 || k == 43 || k == 44 || k == 45 || k == 46 || k == 47 || k == 48);
    }
}

proof fn lemma_row_50()
    ensures
        adapter_row(50, 0x1CF1, 0x0030, BtQuirk::NeedFirmware.code() as int, "Dell DW5821e (QCA)"@),
{
    lemma_table_values();
    assert forall|k: int| 0 <= k < 50 implies !((#[trigger] device_ids()[k]).0 == 0x1CF1 && device_ids()[k].1 == 0x0030) by {
        assert(k == 0 || k == 1 || k == 2 || k == 3 || k == 4 || k == 5 || k == 6 || k == 7 || k == 8 || k == 9 || k == 10 || k == 11 || k == 12 || k == 13 || k == 14 || k == 15 || k == 16 || k == 17 || k == 18 || k == 19 || k == 20 || k == 21 || k == 22 || k == 23 || k == 24 || k == 25 || k == 26 || k == 27 || k == 28 || k == 29 || k == 30 || k == 31 || k == 32 || k == 33 || k == 34 || k == 35 || k == 36 || k == 37 || k == 38 || k == 39 || k == 40 || k == 41 || k == 42 || k == 43 || k == 44 || k == 45 || k == 46 || k == 47 || k == 48 || k == 49);
    }
}

/// The known adapters: for each, looking up its vendor and product IDs
/// finds it (it is the first table entry with those IDs), with its name
/// and its quirks.
pub proof fn lemma_known_adapters()
    ensures
        adapter_row(0, 0x0A5C, 0x21E8, BtQuirk::BcmBaudChange.code() + BtQuirk::NeedFirmware.code(), "BCM20702A1"@),
        adapter_row(1, 0x0A5C, 0x21EC, BtQuirk::BcmBaudChange.code() + BtQuirk::NeedFirmware.code(), "BCM20702A0"@),
        adapter_row(2, 0x0A5C, 0x216F, BtQuirk::BcmBaudChange.code() + BtQuirk::NeedFirmware.code(), "BCM43142A0"@),
        adapter_row(3, 0x0A5C, 0x21D7, BtQuirk::BcmBaudChange.code() + BtQuirk::NeedFirmware.code(), "BCM4330"@),
        adapter_row(4, 0x0A5C, 0x22BE, BtQuirk::BcmBaudChange.code() + BtQuirk::NeedFirmware.code(), "BCM2076B1"@),
        adapter_row(5, 0x0A5C, 0x21F1, BtQuirk::BcmBaudChange.code() + BtQuirk::NeedFirmware.code(), "BCM2045A0"@),
        adapter_row(6, 0x0489, 0xE07A, BtQuirk::BcmBaudChange.code() + BtQuirk::NeedFirmware.code(), "BCM4324B3"@),
        adapter_row(7, 0x0489, 0xE0CD, BtQuirk::BcmBaudChange.code() + BtQuirk::NeedFirmware.code(), "BCM4350C5"@),
        adapter_row(8, 0x413C, 0x8143, BtQuirk::BcmBaudChange.code() + BtQuirk::NeedFirmware.code(), "DW1560 (BCM20702)"@),
        adapter_row(9, 0x8087, 0x0025, BtQuirk::NeedFirmware.code() + BtQuirk::IntelDebug.code(), "Intel Wireless-AC 7260"@),
        adapter_row(10, 0x8087, 0x0026, BtQuirk::NeedFirmware.code() + BtQuirk::IntelDebug.code(), "Intel Wireless-AC 3160"@),
        adapter_row(11, 0x8087, 0x0A2A, BtQuirk::NeedFirmware.code() + BtQuirk::IntelDebug.code(), "Intel Wireless-AC 8260"@),
        adapter_row(12, 0x8087, 0x0A2B, BtQuirk::NeedFirmware.code() + BtQuirk::IntelDebug.code(), "Intel Wireless-AC 8265"@),
        adapter_row(13, 0x8087, 0x0AAA, BtQuirk::NeedFirmware.code() + BtQuirk::IntelDebug.code(), "Intel Wireless-AC 9560"@),
        adapter_row(14, 0x8087, 0x0AA8, BtQuirk::NeedFirmware.code() + BtQuirk::HasIsoData.code() + BtQuirk::IntelDebug.code(), "Intel AX200 (Cyborg)"@),
        adapter_row(15, 0x8087, 0x0029, BtQuirk::NeedFirmware.code() + BtQuirk::HasIsoData.code() + BtQuirk::IntelDebug.code(), "Intel AX201 (Jefferson Peak)"@),
        adapter_row(16, 0x8087, 0x0032, BtQuirk::NeedFirmware.code() + BtQuirk::HasIsoData.code() + BtQuirk::IntelDebug.code(), "Intel AX210 (Garrison Peak)"@),
        adapter_row(17, 0x8087, 0x0033, BtQuirk::NeedFirmware.code() + BtQuirk::HasIsoData.code() + BtQuirk::IntelDebug.code(), "Intel AX211"@),
        adapter_row(18, 0x0BDA, 0x8761, BtQuirk::NeedFirmware.code() + BtQuirk::RtlExtensions.code(), "RTL8761BUV (BT 5.0)"@),
        adapter_row(19, 0x0BDA, 0x8771, BtQuirk::NeedFirmware.code() + BtQuirk::RtlExtensions.code(), "RTL8771BUV (BT 5.1)"@),
        adapter_row(20, 0x0BDA, 0x8822, BtQuirk::NeedFirmware.code() + BtQuirk::RtlExtensions.code(), "RTL8822CE"@),
        adapter_row(21, 0x0BDA, 0xC822, BtQuirk::NeedFirmware.code() + BtQuirk::RtlExtensions.code(), "RTL8822CU"@),
        adapter_row(22, 0x0BDA, 0xB023, BtQuirk::NeedFirmware.code() + BtQuirk::RtlExtensions.code(), "RTL8821CE"@),
        adapter_row(23, 0x0BDA, 0x4853, BtQuirk::NeedFirmware.code() + BtQuirk::RtlExtensions.code(), "RTL8822BU"@),
        adapter_row(24, 0x0BDA, 0x2B89, BtQuirk::NeedFirmware.code() + BtQuirk::RtlExtensions.code(), "RTL8723BE"@),
        adapter_row(25, 0x0BDA, 0xB720, BtQuirk::NeedFirmware.code() + BtQuirk::RtlExtensions.code(), "RTL8723BU"@),
        adapter_row(26, 0x0BDA, 0xD723, BtQuirk::NeedFirmware.code() + BtQuirk::RtlExtensions.code(), "RTL8723DE"@),
        adapter_row(27, 0x0BDA, 0x5B71, BtQuirk::NeedFirmware.code() + BtQuirk::RtlExtensions.code(), "RTL8188EU (BT combo)"@),
        adapter_row(28, 0x10B7, 0xB728, BtQuirk::NeedFirmware.code() + BtQuirk::RtlExtensions.code(), "RTL8723DS (Ampak)"@),
        adapter_row(29, 0x0CF3, 0xE300, BtQuirk::NeedFirmware.code() as int, "Qualcomm QCA6174A (WCN3680B)"@),
        adapter_row(30, 0x0489, 0xE0A2, BtQuirk::NeedFirmware.code() as int, "QCA9377 (WCN3610)"@),
        adapter_row(31, 0x0CF3, 0xE005, BtQuirk::NeedFirmware.code() as int, "AR3012 (Atheros)"@),
        adapter_row(32, 0x0CF3, 0x3004, BtQuirk::NoQuirks.code() as int, "AR3011 (Atheros)"@),
        adapter_row(33, 0x0489, 0xE036, BtQuirk::NeedFirmware.code() as int, "QCA61x4A"@),
        adapter_row(34, 0x0489, 0xE0B0, BtQuirk::NeedFirmware.code() + BtQuirk::HasIsoData.code(), "QCA6390 (WCN685x)"@),
        adapter_row(35, 0x0489, 0xE0C5, BtQuirk::NeedFirmware.code() + BtQuirk::HasIsoData.code(), "QCA6696 (WCN6856)"@),
        adapter_row(36, 0x0E8D, 0x7921, BtQuirk::NeedFirmware.code() + BtQuirk::NeedResetAfterFw.code() + BtQuirk::HasIsoData.code(), "MT7921 (MT7961)"@),
        adapter_row(37, 0x0E8D, 0x7922, BtQuirk::NeedFirmware.code() + BtQuirk::NeedResetAfterFw.code() + BtQuirk::HasIsoData.code(), "MT7922 (Filogic 330)"@),
        adapter_row(38, 0x0E8D, 0x7663, BtQuirk::NeedFirmware.code() as int, "MT7663U"@),
        adapter_row(39, 0x0E8D, 0x7668, BtQuirk::NeedFirmware.code() + BtQuirk::HasIsoData.code(), "MT7668U"@),
        adapter_row(40, 0x0A12, 0x0001, BtQuirk::NoQuirks.code() as int, "CSR BlueCore4"@),
        adapter_row(41, 0x0A12, 0x1000, BtQuirk::NoQuirks.code() as int, "CSR BlueCore5"@),
        adapter_row(42, 0x0A12, 0x0100, BtQuirk::NoQuirks.code() as int, "CSR8510 A10"@),
        adapter_row(43, 0x0A12, 0x0101, BtQuirk::NoQuirks.code() as int, "CSR8510 A12"@),
        adapter_row(44, 0x1131, 0x1001, BtQuirk::NoQuirks.code() as int, "Integrated System Solution (ISSC)"@),
        adapter_row(45, 0x13D3, 0x3402, BtQuirk::NeedFirmware.code() as int, "Azurewave (BCM-based)"@),
        adapter_row(46, 0x13D3, 0x3432, BtQuirk::NeedFirmware.code() + BtQuirk::IntelDebug.code(), "Azurewave (Intel-based)"@),
        adapter_row(47, 0x0930, 0x0225, BtQuirk::NoQuirks.code() as int, "Toshiba BT Stack (generic)"@),
        adapter_row(48, 0x04CA, 0x2006, BtQuirk::NeedFirmware.code() as int, "Lite-On (Broadcom based)"@),
        adapter_row(49, 0x04CA, 0x3014, BtQuirk::NeedFirmware.code() as int, "Lite-On (MediaTek)"@),
        adapter_row(50, 0x1CF1, 0x0030, BtQuirk::NeedFirmware.code() as int, "Dell DW5821e (QCA)"@),
{
    lemma_row_0();
    lemma_row_1();
    lemma_row_2();
    lemma_row_3();
    lemma_row_4();
    lemma_row_5();
    lemma_row_6();
    lemma_row_7();
    lemma_row_8();
    lemma_row_9();
    lemma_row_10();
    lemma_row_11();
    lemma_row_12();
    lemma_row_13();
    lemma_row_14();
    lemma_row_15();
    lemma_row_16();
    lemma_row_17();
    lemma_row_18();
    lemma_row_19();
    lemma_row_20();
    lemma_row_21();
    lemma_row_22();
    lemma_row_23();
    lemma_row_24();
    lemma_row_25();
    lemma_row_26();
    lemma_row_27();
    lemma_row_28();
    lemma_row_29();
    lemma_row_30();
    lemma_row_31();
    lemma_row_32();
    lemma_row_33();
    lemma_row_34();
    lemma_row_35();
    lemma_row_36();
    lemma_row_37();
    lemma_row_38();
    lemma_row_39();
    lemma_row_40();
    lemma_row_41();
    lemma_row_42();
    lemma_row_43();
    lemma_row_44();
    lemma_row_45();
    lemma_row_46();
    lemma_row_47();
    lemma_row_48();
    lemma_row_49();
    lemma_row_50();
}

} // verus!
