use acpi_tables::mem_utils::{ChecksumKind, PhysMem};
use acpi_tables::rsdp::{MemRegion, RSDP, RSDP_SIZE, XSDP, RANGES as POINTER_RANGES};
use acpi_tables::sdt::{FADT, RSDT, RANGES, RSDT_SIZE, FADT_SIZE};

fn put(buf: &mut [u8], base: u64, addr: u64, data: &[u8]) {
    let off = (addr - base) as usize;
    buf[off..off + data.len()].copy_from_slice(data);
}

/// A root pointer whose bytes fold to zero.
fn rsdp_bytes(rsdt_addr: u32) -> Vec<u8> {
    let mut b = Vec::new();
    b.extend_from_slice(b"RSD PTR ");
    b.push(0);
    b.extend_from_slice(b"BOCHS ");
    b.push(0);
    b.extend_from_slice(&rsdt_addr.to_le_bytes());
    b[8] = b.iter().fold(0u8, |a, x| a ^ x);
    b
}

fn sample_rsdp() -> RSDP {
    RSDP { signature: *b"RSD PTR ", checksum: 0, oemid: *b"BOCHS ", revision: 0, rsdt_addr: 0x7FE_1234 }
}

#[test]
fn rsdp_verify_needs_signature_and_checksum() {
    let mut r = sample_rsdp();
    r.checksum = r.to_bytes().iter().fold(0u8, |a, x| a ^ x);
    assert!(r.verify());
    assert!(r.verify_with(ChecksumKind::Xor));
    let sum = r.to_bytes().iter().fold(0u8, |a, x| a.wrapping_add(*x));
    let mut s = r;
    s.checksum = 0;
    let rest = s.to_bytes().iter().fold(0u8, |a, x| a.wrapping_add(*x));
    s.checksum = 0u8.wrapping_sub(rest);
    assert!(s.verify_with(ChecksumKind::Sum));
    assert!(!s.verify());
    assert_eq!(r.verify_with(ChecksumKind::Sum), sum == 0);
    let mut bad_sig = r;
    bad_sig.signature = *b"RSD PTR_";
    assert!(!bad_sig.verify());
    let mut bad_sum = r;
    bad_sum.checksum ^= 1;
    assert!(!bad_sum.verify());
}

#[test]
fn rsdp_to_bytes_layout() {
    let r = sample_rsdp();
    let b = r.to_bytes();
    assert_eq!(b.len(), RSDP_SIZE as usize);
    assert_eq!(&b[0..8], b"RSD PTR ");
    assert_eq!(&b[9..15], b"BOCHS ");
    assert_eq!(&b[16..20], &0x7FE_1234u32.to_le_bytes());
}

#[test]
fn xsdp_verify_checks_signature_only() {
    let x = XSDP {
        signature: *b"RSD PTR ",
        checksum: 0x55,
        oemid: *b"BOCHS ",
        revision: 2,
        rsdt_addr: 1,
        len: 36,
        xsdt_addr: 2,
        extended_checksum: 0x99,
        reserved: [0; 3],
    };
    assert!(x.verify());
    let mut y = x;
    y.signature = *b"XSD PTR ";
    assert!(!y.verify());
}

#[test]
fn rsdp_found_in_zeroed_buffer() {
    let base = 0x200000u64;
    let mut buf = vec![0u8; 4096];
    put(&mut buf, base, base + 512, &rsdp_bytes(0x7FE_1234));
    let mem = PhysMem { base, bytes: &buf };
    let r = RSDP::load_rsdp_in(&mem, base, base + 4096 - RSDP_SIZE).expect("root pointer");
    assert_eq!(&r.signature, b"RSD PTR ");
    assert_eq!(&r.oemid, b"BOCHS ");
    assert_eq!(r.rsdt_addr, 0x7FE_1234);
    assert_eq!(r.checksum, buf[512 + 8]);
    assert!(r.verify());
}

#[test]
fn rsdp_with_corrupt_checksum_is_not_found() {
    let base = 0x200000u64;
    let mut buf = vec![0u8; 4096];
    let mut rec = rsdp_bytes(0x7FE_1234);
    rec[8] ^= 0x01;
    put(&mut buf, base, base + 512, &rec);
    let mem = PhysMem { base, bytes: &buf };
    assert!(RSDP::load_rsdp_in(&mem, base, base + 4096 - RSDP_SIZE).is_none());
}

#[test]
fn rsdp_only_first_match_is_tried() {
    let base = 0x200000u64;
    let mut buf = vec![0u8; 4096];
    put(&mut buf, base, base + 64, b"RSD PTR ");
    put(&mut buf, base, base + 512, &rsdp_bytes(5));
    let mem = PhysMem { base, bytes: &buf };
    assert!(RSDP::load_rsdp_in(&mem, base, base + 4096 - RSDP_SIZE).is_none());
}

#[test]
fn load_rsdp_scans_fixed_window() {
    let base = 0x200000u64;
    let mut buf = vec![0u8; 0x2000 + RSDP_SIZE as usize];
    put(&mut buf, base, base + 0x1F00, &rsdp_bytes(0xE0000));
    let mem = PhysMem { base, bytes: &buf };
    let r = RSDP::load_rsdp(&mem).expect("root pointer");
    assert_eq!(r.rsdt_addr, 0xE0000);
    assert_eq!(POINTER_RANGES.len(), 6);
    assert_eq!(POINTER_RANGES[2], [0x200000, 0x215000]);
}

#[test]
fn rsdt_found_in_second_range() {
    let first = vec![0u8; 0x100 + RSDT_SIZE as usize];
    let mut second = vec![0u8; 0x100 + RSDT_SIZE as usize];
    let m = 0x1240u64;
    let base = 0x1200u64;
    put(&mut second, base, m, b"FACP");
    put(&mut second, base, m + 4, &0xF4u32.to_le_bytes());
    put(&mut second, base, m + 8, &[1, 0x5A]);
    put(&mut second, base, m + 10, b"BOCHS ");
    put(&mut second, base, m + 16, b"BXPCFA");
    put(&mut second, base, m + 22, &7u32.to_le_bytes());
    put(&mut second, base, m + 26, &0x4350_5842u32.to_le_bytes());
    put(&mut second, base, m + 30, &1u32.to_le_bytes());
    put(&mut second, base, m + 34, &0xDEAD_BEEFu32.to_le_bytes());
    let windows = [
        PhysMem { base: 0x1000, bytes: &first },
        PhysMem { base, bytes: &second },
    ];
    let ranges = [[0x1000u64, 0x1100u64], [0x1200u64, 0x1300u64]];
    let t = RSDT::load_rsdt_from(&windows, &ranges).expect("table");
    assert_eq!(&t.header.signature, b"FACP");
    assert_eq!(t.header.length, 0xF4);
    assert_eq!(t.header.revision, 1);
    assert_eq!(t.header.checksum, 0x5A);
    assert_eq!(&t.header.oemid, b"BOCHS ");
    assert_eq!(&t.header.oemtable_id, b"BXPCFA");
    assert_eq!(t.header.oemrevision, 7);
    assert_eq!(t.header.creator_id, 0x4350_5842);
    assert_eq!(t.header.creator_revision, 1);
    assert_eq!(t.pointer_to_other_sdt, 0xDEAD_BEEF);
}

#[test]
fn rsdt_found_in_last_bytes_of_range() {
    let mut buf = vec![0u8; 0x100 + RSDT_SIZE as usize];
    put(&mut buf, 0x1000, 0x10FC, b"FACP");
    put(&mut buf, 0x1000, 0x10FC + 34, &3u32.to_le_bytes());
    let mem = PhysMem { base: 0x1000, bytes: &buf };
    let t = RSDT::load_rsdt_from(&[mem], &[[0x1000u64, 0x1100u64]]).expect("table");
    assert_eq!(t.pointer_to_other_sdt, 3);
}

#[test]
fn rsdt_first_range_wins() {
    let mut buf = vec![0u8; 0x400];
    put(&mut buf, 0x1000, 0x1200, b"FACP");
    put(&mut buf, 0x1000, 0x1080, b"FACP");
    put(&mut buf, 0x1000, 0x1080 + 34, &9u32.to_le_bytes());
    let mem = PhysMem { base: 0x1000, bytes: &buf };
    let ranges = [[0x1200u64, 0x1300u64], [0x1000u64, 0x1100u64]];
    let t = RSDT::load_rsdt_from(&[mem, mem], &ranges).expect("table");
    assert_eq!(t.pointer_to_other_sdt, 0);
    let ranges = [[0x1000u64, 0x1100u64], [0x1200u64, 0x1300u64]];
    let t = RSDT::load_rsdt_from(&[mem, mem], &ranges).expect("table");
    assert_eq!(t.pointer_to_other_sdt, 9);
}

#[test]
fn rsdt_absent_everywhere() {
    let buf = vec![0u8; 0x400];
    let mem = PhysMem { base: 0x1000, bytes: &buf };
    let ranges = [[0x1000u64, 0x1100u64], [0x1300u64, 0x1200u64]];
    assert!(RSDT::load_rsdt_from(&[mem, mem], &ranges).is_none());
    assert!(RSDT::load_rsdt_from(&[], &[]).is_none());
    assert_eq!(RANGES.len(), 5);
    assert_eq!(RSDT_SIZE, 38);
}

#[test]
fn load_rsdt_scans_builtin_ranges() {
    let mut bufs: Vec<Vec<u8>> =
        RANGES.iter().map(|r| vec![0u8; (r[1] - r[0] + RSDT_SIZE) as usize]).collect();
    // The last four bytes of the second range; the first range holds nothing.
    put(&mut bufs[1], RANGES[1][0], 0xBFFFC, b"FACP");
    put(&mut bufs[1], RANGES[1][0], 0xBFFFC + 34, &0x55u32.to_le_bytes());
    put(&mut bufs[3], RANGES[3][0], RANGES[3][0] + 8, b"FACP");
    let windows: Vec<PhysMem> = RANGES
        .iter()
        .zip(bufs.iter())
        .map(|(r, b)| PhysMem { base: r[0], bytes: b })
        .collect();
    let t = RSDT::load_rsdt(&windows).expect("table");
    assert_eq!(&t.header.signature, b"FACP");
    assert_eq!(t.pointer_to_other_sdt, 0x55);
}

#[test]
fn xsdp_found_in_usable_region_only() {
    let mut buf = vec![0u8; 0x400];
    put(&mut buf, 0x8000, 0x8010, b"RSD PTR ");
    put(&mut buf, 0x8000, 0x8130, b"RSD PTR ");
    put(&mut buf, 0x8000, 0x8130 + 24, &0x1122_3344_5566_7788u64.to_le_bytes());
    let mem = PhysMem { base: 0x8000, bytes: &buf };
    let map = [
        MemRegion { start: 0x8000, end: 0x8100, usable: false },
        MemRegion { start: 0x8100, end: 0x8200, usable: true },
    ];
    let x = XSDP::load_xsdp(&[mem, mem], &map).expect("extended pointer");
    assert_eq!(x.xsdt_addr, 0x1122_3344_5566_7788);
    assert!(x.verify());
}

#[test]
fn xsdp_scans_sixteen_byte_steps() {
    let mut buf = vec![0u8; 0x400];
    put(&mut buf, 0x8000, 0x8108, b"RSD PTR ");
    let mem = PhysMem { base: 0x8000, bytes: &buf };
    let map = [MemRegion { start: 0x8100, end: 0x8200, usable: true }];
    assert!(XSDP::load_xsdp(&[mem], &map).is_none());
    let map = [MemRegion { start: 0x8108, end: 0x8200, usable: true }];
    assert!(XSDP::load_xsdp(&[mem], &map).is_some());
}

#[test]
fn xsdp_tries_every_address_below_region_end() {
    let mut buf = vec![0u8; 0x400];
    put(&mut buf, 0x8000, 0x81F0, b"RSD PTR ");
    let mem = PhysMem { base: 0x8000, bytes: &buf };
    let map = [MemRegion { start: 0x8100, end: 0x81F1, usable: true }];
    assert!(XSDP::load_xsdp(&[mem], &map).is_some());
    let map = [MemRegion { start: 0x8100, end: 0x81F0, usable: true }];
    assert!(XSDP::load_xsdp(&[mem], &map).is_none());
}

#[test]
fn fadt_overlay_reads_fields() {
    let mut buf = vec![0u8; FADT_SIZE as usize + 16];
    let base = 0x4000u64;
    let a = 0x4008u64;
    put(&mut buf, base, a, b"FACP");
    put(&mut buf, base, a + 34, &0xAABB_CCDDu32.to_le_bytes());
    put(&mut buf, base, a + 38, &0x1234_5678u32.to_le_bytes());
    put(&mut buf, base, a + 42, &[0, 7]);
    put(&mut buf, base, a + 44, &9u16.to_le_bytes());
    let mem = PhysMem { base, bytes: &buf };
    let f = FADT::load_fadt(&mem, a).expect("table");
    assert_eq!(&f.header.signature, b"FACP");
    assert_eq!(f.firmware_ctrl, 0xAABB_CCDD);
    assert_eq!(f.uint32_t, 0x1234_5678);
    assert_eq!(f.preferred_power_management_profile, 7);
    assert_eq!(f.sci_interrupt, 9);
    assert_eq!(FADT_SIZE, 242);
}
