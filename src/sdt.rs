//! The system description table header, the root table and the fixed
//! hardware description table.
use vstd::prelude::*;
use crate::mem_utils::{has_match, is_first_match, le16, le32, le64, search, PhysMem};

verus! {

/// The windows that are scanned for the root table, as `[start, end)` pairs of
/// physical addresses, in the order they are tried.
pub const RANGES: [[u64; 2]; 5] = [
    [0x0000000000001000u64, 0x0000000000015000u64],
    [0x00000000000a0000u64, 0x00000000000c0000u64],
    [0x0000000000200000u64, 0x0000000000202000u64],
    [0x0000010000000000u64, 0x0000010000001000u64],
    [0x0000010000002000u64, 0x0000010000202000u64],
];

/// The signature "FACP" of the fixed hardware description table.
pub const FACP: [u8; 4] = [0x46, 0x41, 0x43, 0x50];

pub open spec fn facp_sig() -> Seq<u8> {
    seq![0x46u8, 0x41u8, 0x43u8, 0x50u8]
}

/// Size in bytes of the table header.
pub const HEADER_SIZE: u64 = 34;

/// Size in bytes of the root table as this library reads it.
pub const RSDT_SIZE: u64 = 38;

/// Size in bytes of a generic address structure.
pub const GAS_SIZE: u64 = 12;

/// Size in bytes of the fixed hardware description table.
pub const FADT_SIZE: u64 = 242;

/// A register location. `addr_space` selects the space:
///
/// | Value | Address space |
/// |------ | --------------|
/// | 0 | System memory |
/// | 1 | System I/O |
/// | 2 | PCI configuration space |
/// | 3 | Embedded controller |
/// | 4 | System management bus |
/// | 5 | System CMOS |
/// | 6 | PCI device BAR target |
/// | 7 | Intelligent platform management infrastructure |
/// | 8 | General purpose I/O |
/// | 9 | Generic serial bus |
/// | 0x0A | Platform communication channel |
/// | 0x0B to 0x7F | Reserved |
/// | 0x80 to 0xFF | OEM defined |
#[derive(Clone, Copy, Debug)]
pub struct GenericAddressStructure {
    pub addr_space: u8,
    pub bit_width: u8,
    pub bit_offset: u8,
    pub access_size: u8,
    pub addr: u64,
}

impl GenericAddressStructure {
    /// `self` is the structure laid out in memory at `a`.
    pub open spec fn overlays(&self, mem: PhysMem, a: int) -> bool {
        &&& self.addr_space == mem.byte(a)
        &&& self.bit_width == mem.byte(a + 1)
        &&& self.bit_offset == mem.byte(a + 2)
        &&& self.access_size == mem.byte(a + 3)
        &&& self.addr == le64(mem.window(a + 4, 8))
    }

    /// Overlays the structure on the memory at `a`.
    pub fn read_at(mem: &PhysMem, a: u64) -> (r: GenericAddressStructure)
        requires
            mem.covers(a as int, a + GAS_SIZE),
        ensures
            r.overlays(*mem, a as int),
    {
        GenericAddressStructure {
            addr_space: mem.read_u8(a),
            bit_width: mem.read_u8(a + 1),
            bit_offset: mem.read_u8(a + 2),
            access_size: mem.read_u8(a + 3),
            addr: mem.read_u64(a + 4),
        }
    }
}

/// The header that every system description table starts with.
#[derive(Clone, Copy, Debug)]
pub struct ACPISDTHeader {
    pub signature: [u8; 4],
    pub length: u32,
    pub revision: u8,
    pub checksum: u8,
    pub oemid: [u8; 6],
    pub oemtable_id: [u8; 6],
    pub oemrevision: u32,
    pub creator_id: u32,
    pub creator_revision: u32,
}

impl ACPISDTHeader {
    /// `self` is the header laid out in memory at `a`.
    pub open spec fn overlays(&self, mem: PhysMem, a: int) -> bool {
        &&& self.signature@ == mem.window(a, 4)
        &&& self.length == le32(mem.window(a + 4, 4))
        &&& self.revision == mem.byte(a + 8)
        &&& self.checksum == mem.byte(a + 9)
        &&& self.oemid@ == mem.window(a + 10, 6)
        &&& self.oemtable_id@ == mem.window(a + 16, 6)
        &&& self.oemrevision == le32(mem.window(a + 22, 4))
        &&& self.creator_id == le32(mem.window(a + 26, 4))
        &&& self.creator_revision == le32(mem.window(a + 30, 4))
    }

    /// Overlays the header on the memory at `a`.
    pub fn read_at(mem: &PhysMem, a: u64) -> (r: ACPISDTHeader)
        requires
            mem.covers(a as int, a + HEADER_SIZE),
        ensures
            r.overlays(*mem, a as int),
    {
        ACPISDTHeader {
            signature: mem.read_array(a),
            length: mem.read_u32(a + 4),
            revision: mem.read_u8(a + 8),
            checksum: mem.read_u8(a + 9),
            oemid: mem.read_array(a + 10),
            oemtable_id: mem.read_array(a + 16),
            oemrevision: mem.read_u32(a + 22),
            creator_id: mem.read_u32(a + 26),
            creator_revision: mem.read_u32(a + 30),
        }
    }
}

/// The root system description table: its header and the first pointer of
/// the table array that follows it.
#[derive(Clone, Copy, Debug)]
pub struct RSDT {
    pub header: ACPISDTHeader,
    pub pointer_to_other_sdt: u32,
}

/// Range `i` of `ranges` holds "FACP" at one of its 4-byte-aligned offsets.
pub open spec fn range_has_facp(mem: PhysMem, ranges: Seq<[u64; 2]>, i: int) -> bool {
    has_match(mem, ranges[i][0] as int, ranges[i][1] as int, facp_sig(), 4)
}

impl RSDT {
    /// `self` is the table laid out in memory at `a`.
    pub open spec fn overlays(&self, mem: PhysMem, a: int) -> bool {
        &&& self.header.overlays(mem, a)
        &&& self.pointer_to_other_sdt == le32(mem.window(a + 34, 4))
    }

    /// Overlays the root table on the memory at `a`.
    pub fn read_at(mem: &PhysMem, a: u64) -> (r: RSDT)
        requires
            mem.covers(a as int, a + RSDT_SIZE),
        ensures
            r.overlays(*mem, a as int),
    {
        RSDT { header: ACPISDTHeader::read_at(mem, a), pointer_to_other_sdt: mem.read_u32(a + 34) }
    }

    /// Scans the ranges in order, each in steps of four bytes, for "FACP" and
    /// overlays the root table on the first match. Nothing further is checked.
    /// `windows[i]` is the memory of range `i`.
    pub fn load_rsdt_from(windows: &[PhysMem], ranges: &[[u64; 2]]) -> (r: Option<RSDT>)
        requires
            windows@.len() == ranges@.len(),
            forall|i: int|
                0 <= i < ranges@.len() && ranges@[i][0] <= ranges@[i][1] ==> windows@[i].covers(
                    ranges@[i][0] as int,
                    ranges@[i][1] + RSDT_SIZE,
                ),
        ensures
            match r {
                Some(rec) => exists|i: int, a: int|
                    #![trigger ranges@[i], is_first_match(windows@[i], ranges@[i][0] as int, ranges@[i][1] as int, facp_sig(), 4, a)]
                    0 <= i < ranges@.len() && is_first_match(
                        windows@[i],
                        ranges@[i][0] as int,
                        ranges@[i][1] as int,
                        facp_sig(),
                        4,
                        a,
                    ) && rec.overlays(windows@[i], a) && (forall|j: int|
                        0 <= j < i ==> !#[trigger] range_has_facp(windows@[j], ranges@, j)),
                None => forall|j: int|
                    0 <= j < ranges@.len() ==> !#[trigger] range_has_facp(windows@[j], ranges@, j),
            },
    {
        let sig: &[u8] = FACP.as_slice();
        assert(sig@ == facp_sig());
        let mut i: usize = 0;
        while i < ranges.len()
            invariant
                i <= ranges@.len(),
                windows@.len() == ranges@.len(),
                sig@ == facp_sig(),
                forall|k: int|
                    0 <= k < ranges@.len() && ranges@[k][0] <= ranges@[k][1] ==> windows@[k].covers(
                        ranges@[k][0] as int,
                        ranges@[k][1] + RSDT_SIZE,
                    ),
                forall|j: int| 0 <= j < i ==> !#[trigger] range_has_facp(windows@[j], ranges@, j),
            decreases ranges@.len() - i,
        {
            let range = ranges[i];
            let mem = &windows[i];
            let (start, end) = (range[0], range[1]);
            if start <= end {
                assert(mem.covers(start as int, end as int));
            }
            match search(mem, start, end, sig, 4) {
                Some(a) => {
                    let rec = RSDT::read_at(mem, a);
                    assert(is_first_match(windows@[i as int], ranges@[i as int][0] as int, ranges@[i as int][1] as int, facp_sig(), 4, a as int));
                    return Some(rec);
                },
                None => {},
            }
            i = i + 1;
        }
        None
    }

    /// Scans the built-in `RANGES` for the root table; `windows[i]` is the
    /// memory of `RANGES[i]`.
    pub fn load_rsdt(windows: &[PhysMem]) -> (r: Option<RSDT>)
        requires
            windows@.len() == 5,
            forall|i: int|
                0 <= i < 5 ==> windows@[i].covers(RANGES@[i][0] as int, RANGES@[i][1] + RSDT_SIZE),
        ensures
            match r {
                Some(rec) => exists|i: int, a: int|
                    #![trigger RANGES@[i], is_first_match(windows@[i], RANGES@[i][0] as int, RANGES@[i][1] as int, facp_sig(), 4, a)]
                    0 <= i < 5 && is_first_match(
                        windows@[i],
                        RANGES@[i][0] as int,
                        RANGES@[i][1] as int,
                        facp_sig(),
                        4,
                        a,
                    ) && rec.overlays(windows@[i], a) && (forall|j: int|
                        0 <= j < i ==> !#[trigger] range_has_facp(windows@[j], RANGES@, j)),
                None => forall|j: int|
                    0 <= j < 5 ==> !#[trigger] range_has_facp(windows@[j], RANGES@, j),
            },
    {
        Self::load_rsdt_from(windows, RANGES.as_slice())
    }
}

/// The fixed hardware description table.
#[derive(Clone, Copy, Debug)]
pub struct FADT {
    pub header: ACPISDTHeader,
    pub firmware_ctrl: u32,
    pub uint32_t: u32,
    /// Used in ACPI 1.0 only; kept for compatibility.
    pub reserved: u8,
    pub preferred_power_management_profile: u8,
    pub sci_interrupt: u16,
    pub smi_command_port: u32,
    pub acpi_enable: u8,
    pub acpi_disable: u8,
    pub s4bios_req: u8,
    pub pstate_control: u8,
    pub pm1a_event_block: u32,
    pub pm1b_event_block: u32,
    pub pm1a_control_block: u32,
    pub pm1b_control_block: u32,
    pub pm2_control_block: u32,
    pub pmtimer_block: u32,
    pub gpe0_block: u32,
    pub gpe1_block: u32,
    pub pm1_event_length: u8,
    pub pm1_control_length: u8,
    pub pm2_control_length: u8,
    pub pmtimer_length: u8,
    pub gpe0_length: u8,
    pub gpe1_length: u8,
    pub gpe1_base: u8,
    pub cstate_control: u8,
    pub worst_c2_latency: u16,
    pub worst_c3_latency: u16,
    pub flush_size: u16,
    pub flush_stride: u16,
    pub duty_offset: u8,
    pub duty_width: u8,
    pub day_alarm: u8,
    pub month_alarm: u8,
    pub century: u8,
    /// Reserved in ACPI 1.0; used since ACPI 2.0.
    pub boot_architecture_flags: u16,
    pub reserved2: u8,
    pub flags: u32,
    /// Where to write `reset_value` to reset the machine.
    pub reset_reg: GenericAddressStructure,
    pub reset_value: u8,
    pub reserved3: [u8; 3],
    /// 64-bit pointers, available since ACPI 2.0.
    pub x_firmware_control: u64,
    pub x_dsdt: u64,
    pub x_pm1a_event_block: GenericAddressStructure,
    pub x_pm1b_event_block: GenericAddressStructure,
    pub x_pm1a_control_block: GenericAddressStructure,
    pub x_pm1b_control_block: GenericAddressStructure,
    pub x_pm2_control_block: GenericAddressStructure,
    pub x_pmtimer_block: GenericAddressStructure,
    pub x_gpe0_block: GenericAddressStructure,
    pub x_gpe1_block: GenericAddressStructure,
}

impl FADT {
    /// `self` is the table laid out in memory at `a`.
    pub open spec fn overlays(&self, mem: PhysMem, a: int) -> bool {
        &&& self.header.overlays(mem, a)
        &&& self.firmware_ctrl == le32(mem.window(a + 34, 4))
        &&& self.uint32_t == le32(mem.window(a + 38, 4))
        &&& self.reserved == mem.byte(a + 42)
        &&& self.preferred_power_management_profile == mem.byte(a + 43)
        &&& self.sci_interrupt == le16(mem.window(a + 44, 2))
        &&& self.smi_command_port == le32(mem.window(a + 46, 4))
        &&& self.acpi_enable == mem.byte(a + 50)
        &&& self.acpi_disable == mem.byte(a + 51)
        &&& self.s4bios_req == mem.byte(a + 52)
        &&& self.pstate_control == mem.byte(a + 53)
        &&& self.pm1a_event_block == le32(mem.window(a + 54, 4))
        &&& self.pm1b_event_block == le32(mem.window(a + 58, 4))
        &&& self.pm1a_control_block == le32(mem.window(a + 62, 4))
        &&& self.pm1b_control_block == le32(mem.window(a + 66, 4))
        &&& self.pm2_control_block == le32(mem.window(a + 70, 4))
        &&& self.pmtimer_block == le32(mem.window(a + 74, 4))
        &&& self.gpe0_block == le32(mem.window(a + 78, 4))
        &&& self.gpe1_block == le32(mem.window(a + 82, 4))
        &&& self.pm1_event_length == mem.byte(a + 86)
        &&& self.pm1_control_length == mem.byte(a + 87)
        &&& self.pm2_control_length == mem.byte(a + 88)
        &&& self.pmtimer_length == mem.byte(a + 89)
        &&& self.gpe0_length == mem.byte(a + 90)
        &&& self.gpe1_length == mem.byte(a + 91)
        &&& self.gpe1_base == mem.byte(a + 92)
        &&& self.cstate_control == mem.byte(a + 93)
        &&& self.worst_c2_latency == le16(mem.window(a + 94, 2))
        &&& self.worst_c3_latency == le16(mem.window(a + 96, 2))
        &&& self.flush_size == le16(mem.window(a + 98, 2))
        &&& self.flush_stride == le16(mem.window(a + 100, 2))
        &&& self.duty_offset == mem.byte(a + 102)
        &&& self.duty_width == mem.byte(a + 103)
        &&& self.day_alarm == mem.byte(a + 104)
        &&& self.month_alarm == mem.byte(a + 105)
        &&& self.century == mem.byte(a + 106)
        &&& self.boot_architecture_flags == le16(mem.window(a + 107, 2))
        &&& self.reserved2 == mem.byte(a + 109)
        &&& self.flags == le32(mem.window(a + 110, 4))
        &&& self.reset_reg.overlays(mem, a + 114)
        &&& self.reset_value == mem.byte(a + 126)
        &&& self.reserved3@ == mem.window(a + 127, 3)
        &&& self.x_firmware_control == le64(mem.window(a + 130, 8))
        &&& self.x_dsdt == le64(mem.window(a + 138, 8))
        &&& self.x_pm1a_event_block.overlays(mem, a + 146)
        &&& self.x_pm1b_event_block.overlays(mem, a + 158)
        &&& self.x_pm1a_control_block.overlays(mem, a + 170)
        &&& self.x_pm1b_control_block.overlays(mem, a + 182)
        &&& self.x_pm2_control_block.overlays(mem, a + 194)
        &&& self.x_pmtimer_block.overlays(mem, a + 206)
        &&& self.x_gpe0_block.overlays(mem, a + 218)
        &&& self.x_gpe1_block.overlays(mem, a + 230)
    }

    /// Overlays the table on the memory at `addr`. The signature, length and
    /// checksum are not checked: the caller hands in the address of a table
    /// known to be one.
    pub fn load_fadt(mem: &PhysMem, addr: u64) -> (r: Option<FADT>)
        requires
            mem.covers(addr as int, addr + FADT_SIZE),
        ensures
            r matches Some(t) && t.overlays(*mem, addr as int),
    {
        let a = addr;
        Some(FADT {
            header: ACPISDTHeader::read_at(mem, a),
            firmware_ctrl: mem.read_u32(a + 34),
            uint32_t: mem.read_u32(a + 38),
            reserved: mem.read_u8(a + 42),
            preferred_power_management_profile: mem.read_u8(a + 43),
            sci_interrupt: mem.read_u16(a + 44),
            smi_command_port: mem.read_u32(a + 46),
            acpi_enable: mem.read_u8(a + 50),
            acpi_disable: mem.read_u8(a + 51),
            s4bios_req: mem.read_u8(a + 52),
            pstate_control: mem.read_u8(a + 53),
            pm1a_event_block: mem.read_u32(a + 54),
            pm1b_event_block: mem.read_u32(a + 58),
            pm1a_control_block: mem.read_u32(a + 62),
            pm1b_control_block: mem.read_u32(a + 66),
            pm2_control_block: mem.read_u32(a + 70),
            pmtimer_block: mem.read_u32(a + 74),
            gpe0_block: mem.read_u32(a + 78),
            gpe1_block: mem.read_u32(a + 82),
            pm1_event_length: mem.read_u8(a + 86),
            pm1_control_length: mem.read_u8(a + 87),
            pm2_control_length: mem.read_u8(a + 88),
            pmtimer_length: mem.read_u8(a + 89),
            gpe0_length: mem.read_u8(a + 90),
            gpe1_length: mem.read_u8(a + 91),
            gpe1_base: mem.read_u8(a + 92),
            cstate_control: mem.read_u8(a + 93),
            worst_c2_latency: mem.read_u16(a + 94),
            worst_c3_latency: mem.read_u16(a + 96),
            flush_size: mem.read_u16(a + 98),
            flush_stride: mem.read_u16(a + 100),
            duty_offset: mem.read_u8(a + 102),
            duty_width: mem.read_u8(a + 103),
            day_alarm: mem.read_u8(a + 104),
            month_alarm: mem.read_u8(a + 105),
            century: mem.read_u8(a + 106),
            boot_architecture_flags: mem.read_u16(a + 107),
            reserved2: mem.read_u8(a + 109),
            flags: mem.read_u32(a + 110),
            reset_reg: GenericAddressStructure::read_at(mem, a + 114),
            reset_value: mem.read_u8(a + 126),
            reserved3: mem.read_array(a + 127),
            x_firmware_control: mem.read_u64(a + 130),
            x_dsdt: mem.read_u64(a + 138),
            x_pm1a_event_block: GenericAddressStructure::read_at(mem, a + 146),
            x_pm1b_event_block: GenericAddressStructure::read_at(mem, a + 158),
            x_pm1a_control_block: GenericAddressStructure::read_at(mem, a + 170),
            x_pm1b_control_block: GenericAddressStructure::read_at(mem, a + 182),
            x_pm2_control_block: GenericAddressStructure::read_at(mem, a + 194),
            x_pmtimer_block: GenericAddressStructure::read_at(mem, a + 206),
            x_gpe0_block: GenericAddressStructure::read_at(mem, a + 218),
            x_gpe1_block: GenericAddressStructure::read_at(mem, a + 230),
        })
    }
}

} // verus!
