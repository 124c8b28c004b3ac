//! The root system description pointer, in its 32-bit form and in the
//! extended form that also points at the 64-bit root table.
use vstd::prelude::*;
use crate::mem_utils::{
    balanced, checksum_holds, is_first_match, has_match, ChecksumKind, lemma_first_match_unique, le32, le64, search,
    same_bytes, verify_checksum, xor_fold, PhysMem,
};

verus! {

/// The windows that are known to be safe to scan for the root pointer, as
/// `[start, end)` pairs of physical addresses.
pub const RANGES: [[u64; 2]; 6] = [
    [0x0000000000001000u64, 0x0000000000015000u64],
    [0x00000000000a0000u64, 0x00000000000c0000u64],
    [0x0000000000200000u64, 0x0000000000215000u64],
    [0x0000000000215000u64, 0x0000000000217000u64],
    [0x0000010000000000u64, 0x0000010000001000u64],
    [0x0000010000002000u64, 0x0000010000202000u64],
];

/// The signature "RSD PTR " that both forms of the pointer start with.
pub const RSD_PTR: [u8; 8] = [0x52, 0x53, 0x44, 0x20, 0x50, 0x54, 0x52, 0x20];

pub open spec fn rsd_ptr_sig() -> Seq<u8> {
    seq![0x52u8, 0x53u8, 0x44u8, 0x20u8, 0x50u8, 0x54u8, 0x52u8, 0x20u8]
}

/// Start of the one window that `load_rsdp` scans.
pub const RSDP_SCAN_START: u64 = 0x200000;

/// End of the one window that `load_rsdp` scans.
pub const RSDP_SCAN_END: u64 = 0x202000;

/// Size in bytes of the 32-bit root pointer.
pub const RSDP_SIZE: u64 = 20;

/// Size in bytes of the extended root pointer.
pub const XSDP_SIZE: u64 = 36;

/// The four bytes of `x`, least significant first.
pub open spec fn u32_bytes(x: u32) -> Seq<u8> {
    seq![
        (x % 0x100) as u8,
        ((x / 0x100) % 0x100) as u8,
        ((x / 0x1_0000) % 0x100) as u8,
        (x / 0x100_0000) as u8,
    ]
}

/// The 32-bit root system description pointer.
#[derive(Clone, Copy, Debug)]
pub struct RSDP {
    pub signature: [u8; 8],
    pub checksum: u8,
    pub oemid: [u8; 6],
    pub revision: u8,
    pub rsdt_addr: u32,
}

impl RSDP {
    /// The record's bytes in its firmware layout.
    pub open spec fn spec_bytes(&self) -> Seq<u8> {
        self.signature@ + seq![self.checksum] + self.oemid@ + seq![self.revision] + u32_bytes(
            self.rsdt_addr,
        )
    }

    /// The signature is "RSD PTR " and the bytes of the record fold to zero.
    pub open spec fn spec_verify(&self) -> bool {
        self.signature@ == rsd_ptr_sig() && xor_fold(self.spec_bytes()) == 0
    }

    /// `self` is the record laid out in memory at `a`.
    pub open spec fn overlays(&self, mem: PhysMem, a: int) -> bool {
        &&& self.signature@ == mem.window(a, 8)
        &&& self.checksum == mem.byte(a + 8)
        &&& self.oemid@ == mem.window(a + 9, 6)
        &&& self.revision == mem.byte(a + 15)
        &&& self.rsdt_addr == le32(mem.window(a + 16, 4))
    }

    /// `r` is what a scan of `[start, end)` for the root pointer gives: the
    /// record at the first signature match if it verifies, else nothing.
    pub open spec fn found_in(mem: PhysMem, start: int, end: int, r: Option<RSDP>) -> bool {
        match r {
            Some(rec) => exists|a: int|
                #![trigger is_first_match(mem, start, end, rsd_ptr_sig(), 8, a)]
                is_first_match(mem, start, end, rsd_ptr_sig(), 8, a) && rec.overlays(mem, a)
                    && rec.spec_verify(),
            None => forall|a: int, rec: RSDP|
                #![trigger is_first_match(mem, start, end, rsd_ptr_sig(), 8, a), rec.overlays(mem, a)]
                is_first_match(mem, start, end, rsd_ptr_sig(), 8, a) && rec.overlays(mem, a)
                    ==> !rec.spec_verify(),
        }
    }

    /// The first signature match in `[start, end)` starts twenty bytes of
    /// memory that fold to zero.
    pub open spec fn first_match_checksums(mem: PhysMem, start: int, end: int) -> bool {
        exists|a: int|
            #![trigger is_first_match(mem, start, end, rsd_ptr_sig(), 8, a)]
            is_first_match(mem, start, end, rsd_ptr_sig(), 8, a) && xor_fold(
                mem.window(a, RSDP_SIZE as int),
            ) == 0
    }

    /// The record's bytes in its firmware layout.
    pub fn to_bytes(&self) -> (r: [u8; 20])
        ensures
            r@ == self.spec_bytes(),
    {
        let mut r: [u8; 20] = [0u8; 20];
        let mut i: usize = 0;
        while i < 8
            invariant
                i <= 8,
                r@.len() == 20,
                forall|j: int| 0 <= j < i ==> r@[j] == self.signature@[j],
            decreases 8 - i,
        {
            r[i] = self.signature[i];
            i = i + 1;
        }
        r[8] = self.checksum;
        let mut i: usize = 0;
        while i < 6
            invariant
                i <= 6,
                r@.len() == 20,
                forall|j: int| 0 <= j < 8 ==> r@[j] == self.signature@[j],
                r@[8] == self.checksum,
                forall|j: int| 0 <= j < i ==> r@[9 + j] == self.oemid@[j],
            decreases 6 - i,
        {
            r[9 + i] = self.oemid[i];
            i = i + 1;
        }
        r[15] = self.revision;
        let x = self.rsdt_addr;
        r[16] = (x % 0x100) as u8;
        r[17] = ((x / 0x100) % 0x100) as u8;
        r[18] = ((x / 0x1_0000) % 0x100) as u8;
        r[19] = (x / 0x100_0000) as u8;
        assert(r@ =~= self.spec_bytes());
        r
    }

    /// True iff the signature is "RSD PTR " and the record's bytes fold to zero.
    pub fn verify(&self) -> (r: bool)
        ensures
            r == self.spec_verify(),
    {
        same_bytes(&self.signature, &RSD_PTR) && verify_checksum(self.to_bytes().as_slice())
    }

    /// True iff the signature is "RSD PTR " and the record's bytes are
    /// balanced under `kind`.
    pub fn verify_with(&self, kind: ChecksumKind) -> (r: bool)
        ensures
            r == (self.signature@ == rsd_ptr_sig() && balanced(kind, self.spec_bytes())),
    {
        same_bytes(&self.signature, &RSD_PTR) && checksum_holds(kind, self.to_bytes().as_slice())
    }

    /// Overlays the root pointer on the memory at `a`.
    pub fn read_at(mem: &PhysMem, a: u64) -> (r: RSDP)
        requires
            mem.covers(a as int, a + RSDP_SIZE),
        ensures
            r.overlays(*mem, a as int),
    {
        RSDP {
            signature: mem.read_array(a),
            checksum: mem.read_u8(a + 8),
            oemid: mem.read_array(a + 9),
            revision: mem.read_u8(a + 15),
            rsdt_addr: mem.read_u32(a + 16),
        }
    }

    /// Scans `[start, end)` in steps of eight bytes for "RSD PTR ", and returns
    /// the record at the first match if it verifies.
    pub fn load_rsdp_in(mem: &PhysMem, start: u64, end: u64) -> (r: Option<RSDP>)
        requires
            start <= end ==> mem.covers(start as int, end + RSDP_SIZE),
        ensures
            Self::found_in(*mem, start as int, end as int, r),
            r is Some == Self::first_match_checksums(*mem, start as int, end as int),
    {
        if start <= end {
            assert(mem.covers(start as int, end as int));
        }
        let sig: &[u8] = RSD_PTR.as_slice();
        assert(sig@ == rsd_ptr_sig());
        match search(mem, start, end, sig, 8) {
            Some(a) => {
                let rec = RSDP::read_at(mem, a);
                proof {
                    rec.lemma_overlay_bytes(*mem, a as int);
                }
                if rec.verify() {
                    assert(is_first_match(*mem, start as int, end as int, rsd_ptr_sig(), 8, a as int));
                    Some(rec)
                } else {
                    assert forall|b: int, other: RSDP|
                        #![trigger is_first_match(*mem, start as int, end as int, rsd_ptr_sig(), 8, b), other.overlays(*mem, b)]
                        is_first_match(*mem, start as int, end as int, rsd_ptr_sig(), 8, b)
                            && other.overlays(*mem, b) implies !other.spec_verify() by {
                        lemma_first_match_unique(
                            *mem,
                            start as int,
                            end as int,
                            rsd_ptr_sig(),
                            8,
                            a as int,
                            b,
                        );
                        assert(other.spec_bytes() == rec.spec_bytes());
                    }
                    assert forall|b: int|
                        #![trigger is_first_match(*mem, start as int, end as int, rsd_ptr_sig(), 8, b)]
                        is_first_match(*mem, start as int, end as int, rsd_ptr_sig(), 8, b)
                            implies xor_fold(mem.window(b, RSDP_SIZE as int)) != 0 by {
                        lemma_first_match_unique(
                            *mem,
                            start as int,
                            end as int,
                            rsd_ptr_sig(),
                            8,
                            a as int,
                            b,
                        );
                    }
                    None
                }
            },
            None => {
                assert forall|b: int, other: RSDP|
                    #![trigger is_first_match(*mem, start as int, end as int, rsd_ptr_sig(), 8, b), other.overlays(*mem, b)]
                    is_first_match(*mem, start as int, end as int, rsd_ptr_sig(), 8, b)
                        && other.overlays(*mem, b) implies !other.spec_verify() by {
                    assert(has_match(*mem, start as int, end as int, rsd_ptr_sig(), 8));
                }
                None
            },
        }
    }

    /// Scans the fixed window `[0x200000, 0x202000)` for the root pointer.
    pub fn load_rsdp(mem: &PhysMem) -> (r: Option<RSDP>)
        requires
            mem.covers(RSDP_SCAN_START as int, RSDP_SCAN_END + RSDP_SIZE),
        ensures
            Self::found_in(*mem, RSDP_SCAN_START as int, RSDP_SCAN_END as int, r),
            r is Some == Self::first_match_checksums(
                *mem,
                RSDP_SCAN_START as int,
                RSDP_SCAN_END as int,
            ),
    {
        Self::load_rsdp_in(mem, RSDP_SCAN_START, RSDP_SCAN_END)
    }
}

/// One region of the boot-time memory map: a `[start, end)` range and whether
/// the firmware reported it usable.
#[derive(Clone, Copy, Debug)]
pub struct MemRegion {
    pub start: u64,
    pub end: u64,
    pub usable: bool,
}

/// The extended root system description pointer.
#[derive(Clone, Copy, Debug)]
pub struct XSDP {
    pub signature: [u8; 8],
    pub checksum: u8,
    pub oemid: [u8; 6],
    pub revision: u8,
    pub rsdt_addr: u32,
    pub len: u32,
    pub xsdt_addr: u64,
    pub extended_checksum: u8,
    pub reserved: [u8; 3],
}

/// `reg` is a usable region that holds the signature at an address below its
/// end and a multiple of 16 bytes past its start.
pub open spec fn region_has_xsdp(mem: PhysMem, reg: MemRegion) -> bool {
    reg.usable && reg.start < reg.end && has_match(mem, reg.start as int, reg.end + 7, rsd_ptr_sig(), 16)
}

impl XSDP {
    /// The signature is "RSD PTR "; the checksums are not consulted.
    pub open spec fn spec_verify(&self) -> bool {
        self.signature@ == rsd_ptr_sig()
    }

    /// `self` is the record laid out in memory at `a`.
    pub open spec fn overlays(&self, mem: PhysMem, a: int) -> bool {
        &&& self.signature@ == mem.window(a, 8)
        &&& self.checksum == mem.byte(a + 8)
        &&& self.oemid@ == mem.window(a + 9, 6)
        &&& self.revision == mem.byte(a + 15)
        &&& self.rsdt_addr == le32(mem.window(a + 16, 4))
        &&& self.len == le32(mem.window(a + 20, 4))
        &&& self.xsdt_addr == le64(mem.window(a + 24, 8))
        &&& self.extended_checksum == mem.byte(a + 32)
        &&& self.reserved@ == mem.window(a + 33, 3)
    }

    /// True iff the signature is "RSD PTR ". The checksums are deliberately not
    /// checked.
    pub fn verify(&self) -> (r: bool)
        ensures
            r == self.spec_verify(),
    {
        same_bytes(&self.signature, &RSD_PTR)
    }

    /// Overlays the extended root pointer on the memory at `a`.
    pub fn read_at(mem: &PhysMem, a: u64) -> (r: XSDP)
        requires
            mem.covers(a as int, a + XSDP_SIZE),
        ensures
            r.overlays(*mem, a as int),
    {
        XSDP {
            signature: mem.read_array(a),
            checksum: mem.read_u8(a + 8),
            oemid: mem.read_array(a + 9),
            revision: mem.read_u8(a + 15),
            rsdt_addr: mem.read_u32(a + 16),
            len: mem.read_u32(a + 20),
            xsdt_addr: mem.read_u64(a + 24),
            extended_checksum: mem.read_u8(a + 32),
            reserved: mem.read_array(a + 33),
        }
    }

    /// Goes through the usable regions of the memory map in order and scans
    /// each at every 16th byte below its end for "RSD PTR "; the first match is
    /// copied out and returned. `windows[i]` is the memory of region `i`.
    pub fn load_xsdp(windows: &[PhysMem], map: &[MemRegion]) -> (r: Option<XSDP>)
        requires
            windows@.len() == map@.len(),
            forall|i: int|
                0 <= i < map@.len() && map@[i].usable && map@[i].start < map@[i].end
                    ==> windows@[i].covers(map@[i].start as int, map@[i].end + XSDP_SIZE),
        ensures
            match r {
                Some(rec) => exists|i: int, a: int|
                    #![trigger map@[i], is_first_match(windows@[i], map@[i].start as int, map@[i].end + 7, rsd_ptr_sig(), 16, a)]
                    0 <= i < map@.len() && map@[i].usable && map@[i].start < map@[i].end
                        && is_first_match(windows@[i], map@[i].start as int, map@[i].end + 7, rsd_ptr_sig(), 16, a)
                        && rec.overlays(windows@[i], a) && (forall|j: int|
                        0 <= j < i ==> !region_has_xsdp(windows@[j], #[trigger] map@[j])),
                None => forall|j: int|
                    0 <= j < map@.len() ==> !region_has_xsdp(windows@[j], #[trigger] map@[j]),
            },
            r matches Some(rec) ==> rec.spec_verify(),
    {
        let sig: &[u8] = RSD_PTR.as_slice();
        assert(sig@ == rsd_ptr_sig());
        let mut i: usize = 0;
        while i < map.len()
            invariant
                i <= map@.len(),
                windows@.len() == map@.len(),
                sig@ == rsd_ptr_sig(),
                forall|k: int|
                    0 <= k < map@.len() && map@[k].usable && map@[k].start < map@[k].end
                        ==> windows@[k].covers(map@[k].start as int, map@[k].end + XSDP_SIZE),
                forall|j: int| 0 <= j < i ==> !region_has_xsdp(windows@[j], #[trigger] map@[j]),
            decreases map@.len() - i,
        {
            let reg = map[i];
            let mem = &windows[i];
            if reg.usable && reg.start < reg.end {
                assert(mem.covers(reg.start as int, reg.end + XSDP_SIZE));
                match search(mem, reg.start, reg.end + 7, sig, 16) {
                    Some(a) => {
                        let rec = XSDP::read_at(mem, a);
                        assert(rec.signature@ == sig@);
                        if rec.verify() {
                            assert(is_first_match(windows@[i as int], map@[i as int].start as int, map@[i as int].end + 7, rsd_ptr_sig(), 16, a as int));
                            return Some(rec);
                        }
                    },
                    None => {},
                }
            }
            i = i + 1;
        }
        None
    }
}

/// Splitting the little-endian value of four bytes gives the bytes back.
pub proof fn lemma_u32_bytes_of_le32(w: Seq<u8>, x: u32)
    requires
        w.len() == 4,
        x == le32(w),
    ensures
        u32_bytes(x) == w,
{
    let (b0, b1, b2, b3) = (w[0] as int, w[1] as int, w[2] as int, w[3] as int);
    assert(x % 0x100 == b0 && (x / 0x100) % 0x100 == b1 && (x / 0x1_0000) % 0x100 == b2 && x
        / 0x100_0000 == b3) by (nonlinear_arith)
        requires
            0 <= b0 < 0x100,
            0 <= b1 < 0x100,
            0 <= b2 < 0x100,
            0 <= b3 < 0x100,
            x == b0 + 0x100 * b1 + 0x1_0000 * b2 + 0x100_0000 * b3,
    ;
    assert(u32_bytes(x) =~= w);
}

impl RSDP {
    /// The bytes of a record read from memory are the twenty bytes it was read
    /// from, so its checksum is the fold of those bytes.
    pub proof fn lemma_overlay_bytes(&self, mem: PhysMem, a: int)
        requires
            self.overlays(mem, a),
            mem.covers(a, a + RSDP_SIZE),
        ensures
            self.spec_bytes() == mem.window(a, RSDP_SIZE as int),
            self.spec_verify() == (mem.window(a, 8) == rsd_ptr_sig() && xor_fold(
                mem.window(a, RSDP_SIZE as int),
            ) == 0),
    {
        lemma_u32_bytes_of_le32(mem.window(a + 16, 4), self.rsdt_addr);
        assert(self.spec_bytes() =~= mem.window(a, RSDP_SIZE as int));
    }
}

} // verus!
