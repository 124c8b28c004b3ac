//! The memory window that every locator reads, the byte-pattern scanner and the
//! checksum over a record's bytes.
use vstd::prelude::*;

verus! {

/// A read-only view of the physical memory in `[base, base + bytes.len())`.
///
/// Locators read records from it by physical address; a caller hands in a
/// window that covers every range it asks them to scan.
#[derive(Clone, Copy)]
pub struct PhysMem<'a> {
    pub base: u64,
    pub bytes: &'a [u8],
}

impl<'a> PhysMem<'a> {
    /// Every address in `[start, end)` lies inside the window, and `end` is
    /// still a valid address.
    pub open spec fn covers(&self, start: int, end: int) -> bool {
        self.base <= start <= end <= self.base + self.bytes@.len() && end <= u64::MAX
    }

    /// The byte at physical address `a`.
    pub open spec fn byte(&self, a: int) -> u8 {
        self.bytes@[a - self.base]
    }

    /// The `n` bytes that start at physical address `a`.
    pub open spec fn window(&self, a: int, n: int) -> Seq<u8> {
        self.bytes@.subrange(a - self.base, a - self.base + n)
    }

    pub fn read_u8(&self, a: u64) -> (r: u8)
        requires
            self.covers(a as int, a + 1),
        ensures
            r == self.byte(a as int),
    {
        let n: usize = self.bytes.len();
        let off: u64 = a - self.base;
        assert(off < n);
        self.bytes[off as usize]
    }
}

/// Little-endian value of two bytes.
pub open spec fn le16(s: Seq<u8>) -> int {
    s[0] + 0x100 * s[1]
}

/// Little-endian value of four bytes.
pub open spec fn le32(s: Seq<u8>) -> int {
    s[0] + 0x100 * s[1] + 0x1_0000 * s[2] + 0x100_0000 * s[3]
}

/// Little-endian value of eight bytes.
pub open spec fn le64(s: Seq<u8>) -> int {
    le32(s) + 0x1_0000_0000 * le32(s.subrange(4, 8))
}

impl<'a> PhysMem<'a> {
    pub fn read_u16(&self, a: u64) -> (r: u16)
        requires
            self.covers(a as int, a + 2),
        ensures
            r == le16(self.window(a as int, 2)),
    {
        let b0 = self.read_u8(a) as u16;
        let b1 = self.read_u8(a + 1) as u16;
        b0 + 0x100 * b1
    }

    pub fn read_u32(&self, a: u64) -> (r: u32)
        requires
            self.covers(a as int, a + 4),
        ensures
            r == le32(self.window(a as int, 4)),
    {
        let b0 = self.read_u8(a) as u32;
        let b1 = self.read_u8(a + 1) as u32;
        let b2 = self.read_u8(a + 2) as u32;
        let b3 = self.read_u8(a + 3) as u32;
        b0 + 0x100 * b1 + 0x1_0000 * b2 + 0x100_0000 * b3
    }

    pub fn read_u64(&self, a: u64) -> (r: u64)
        requires
            self.covers(a as int, a + 8),
        ensures
            r == le64(self.window(a as int, 8)),
    {
        let lo = self.read_u32(a) as u64;
        let hi = self.read_u32(a + 4) as u64;
        assert(self.window(a + 4, 4) =~= self.window(a as int, 8).subrange(4, 8));
        lo + 0x1_0000_0000 * hi
    }

    /// Copies the `N` bytes at physical address `a`.
    pub fn read_array<const N: usize>(&self, a: u64) -> (r: [u8; N])
        requires
            self.covers(a as int, a + N),
        ensures
            r@ == self.window(a as int, N as int),
    {
        let mut r: [u8; N] = [0u8; N];
        let mut i: usize = 0;
        while i < N
            invariant
                i <= N,
                self.covers(a as int, a + N),
                r@.len() == N,
                forall|j: int| 0 <= j < i ==> r@[j] == self.byte(a + j),
            decreases N - i,
        {
            r[i] = self.read_u8(a + i as u64);
            i = i + 1;
        }
        assert(r@ =~= self.window(a as int, N as int));
        r
    }
}

/// XOR of all bytes of `s`.
pub open spec fn xor_fold(s: Seq<u8>) -> u8
    decreases s.len(),
{
    if s.len() == 0 {
        0
    } else {
        xor_fold(s.drop_last()) ^ s.last()
    }
}

/// True iff the XOR of all bytes of the record is zero.
pub fn verify_checksum(bytes: &[u8]) -> (r: bool)
    ensures
        r == (xor_fold(bytes@) == 0),
{
    fold_bytes(bytes) == 0
}

/// The complement `0xFF - fold` of the XOR of all bytes of the record.
pub fn create_checksum(bytes: &[u8]) -> (r: u8)
    ensures
        r == 0xFF - xor_fold(bytes@),
{
    0xFF - fold_bytes(bytes)
}

fn fold_bytes(bytes: &[u8]) -> (r: u8)
    ensures
        r == xor_fold(bytes@),
{
    let mut acc: u8 = 0;
    let mut i: usize = 0;
    while i < bytes.len()
        invariant
            i <= bytes@.len(),
            acc == xor_fold(bytes@.subrange(0, i as int)),
        decreases bytes@.len() - i,
    {
        assert(bytes@.subrange(0, i + 1).drop_last() =~= bytes@.subrange(0, i as int));
        acc = acc ^ bytes[i];
        i = i + 1;
    }
    assert(bytes@.subrange(0, i as int) =~= bytes@);
    acc
}

/// Sum of all bytes of `s`, modulo 256.
pub open spec fn sum_fold(s: Seq<u8>) -> u8
    decreases s.len(),
{
    if s.len() == 0 {
        0
    } else {
        ((sum_fold(s.drop_last()) + s.last()) % 0x100) as u8
    }
}

/// The two conventions by which a firmware record's bytes may be checked:
/// their XOR, or their 8-bit sum, must be zero.
#[derive(Clone, Copy, Debug, PartialEq, Eq, Structural)]
pub enum ChecksumKind {
    Xor,
    Sum,
}

/// The record's bytes are balanced under `kind`.
pub open spec fn balanced(kind: ChecksumKind, s: Seq<u8>) -> bool {
    match kind {
        ChecksumKind::Xor => xor_fold(s) == 0,
        ChecksumKind::Sum => sum_fold(s) == 0,
    }
}

/// True iff the 8-bit sum of all bytes of the record is zero.
pub fn verify_sum_checksum(bytes: &[u8]) -> (r: bool)
    ensures
        r == (sum_fold(bytes@) == 0),
{
    let mut acc: u8 = 0;
    let mut i: usize = 0;
    while i < bytes.len()
        invariant
            i <= bytes@.len(),
            acc == sum_fold(bytes@.subrange(0, i as int)),
        decreases bytes@.len() - i,
    {
        assert(bytes@.subrange(0, i + 1).drop_last() =~= bytes@.subrange(0, i as int));
        acc = ((acc as u16 + bytes[i] as u16) % 0x100) as u8;
        i = i + 1;
    }
    assert(bytes@.subrange(0, i as int) =~= bytes@);
    acc == 0
}

/// True iff the record's bytes are balanced under `kind`.
pub fn checksum_holds(kind: ChecksumKind, bytes: &[u8]) -> (r: bool)
    ensures
        r == balanced(kind, bytes@),
{
    match kind {
        ChecksumKind::Xor => verify_checksum(bytes),
        ChecksumKind::Sum => verify_sum_checksum(bytes),
    }
}

/// Overwriting byte `i` of `s` with `v` changes the fold by `s[i] ^ v`.
pub proof fn lemma_xor_fold_update(s: Seq<u8>, i: int, v: u8)
    requires
        0 <= i < s.len(),
    ensures
        xor_fold(s.update(i, v)) == xor_fold(s) ^ s[i] ^ v,
    decreases s.len(),
{
    let t = s.update(i, v);
    let (a, b) = (xor_fold(s.drop_last()), s.last());
    if i == s.len() - 1 {
        assert(t.drop_last() =~= s.drop_last());
        assert((a ^ v) == (a ^ b) ^ b ^ v) by (bit_vector);
    } else {
        assert(t.drop_last() =~= s.drop_last().update(i, v));
        lemma_xor_fold_update(s.drop_last(), i, v);
        let c = s[i];
        assert((a ^ c ^ v) ^ b == (a ^ b) ^ c ^ v) by (bit_vector);
    }
}

/// Writing `create_checksum(r)` into the checksum byte at `i` leaves the record
/// with fold `r[i] ^ 0xFF`. The complement does not cancel an XOR fold: the
/// record verifies afterwards exactly when its checksum byte was `0xFF` before.
pub proof fn lemma_create_checksum_fold(r: Seq<u8>, i: int)
    requires
        0 <= i < r.len(),
    ensures
        xor_fold(r.update(i, (0xFF - xor_fold(r)) as u8)) == r[i] ^ 0xFF,
        (xor_fold(r.update(i, (0xFF - xor_fold(r)) as u8)) == 0) == (r[i] == 0xFF),
{
    let f = xor_fold(r);
    let c = r[i];
    let v = (0xFF - f) as u8;
    lemma_xor_fold_update(r, i, v);
    assert(v == f ^ 0xFF) by (bit_vector)
        requires v == (0xFF - f) as u8;
    assert(f ^ c ^ (f ^ 0xFF) == c ^ 0xFF) by (bit_vector);
    assert((c ^ 0xFF == 0) == (c == 0xFF)) by (bit_vector);
}

/// The bytes at `a` spell `pat`.
pub open spec fn is_match(mem: PhysMem, a: int, pat: Seq<u8>) -> bool {
    mem.window(a, pat.len() as int) == pat
}

/// `a` is one of the offsets that a scan of `[start, end)` for a pattern of
/// `len` bytes with stride `step` tries.
pub open spec fn is_candidate(start: int, end: int, len: int, step: int, a: int) -> bool {
    start <= a && a + len <= end && (a - start) % step == 0
}

/// `a` is the lowest candidate at which `pat` occurs.
pub open spec fn is_first_match(
    mem: PhysMem,
    start: int,
    end: int,
    pat: Seq<u8>,
    step: int,
    a: int,
) -> bool {
    &&& is_candidate(start, end, pat.len() as int, step, a)
    &&& is_match(mem, a, pat)
    &&& forall|b: int|
        #![trigger is_candidate(start, end, pat.len() as int, step, b)]
        is_candidate(start, end, pat.len() as int, step, b) && b < a ==> !is_match(mem, b, pat)
}

/// Some candidate holds the pattern.
pub open spec fn has_match(mem: PhysMem, start: int, end: int, pat: Seq<u8>, step: int) -> bool {
    exists|a: int| is_candidate(start, end, pat.len() as int, step, a) && is_match(mem, a, pat)
}

/// What a scan returns: the lowest matching candidate, or nothing when none matches.
pub open spec fn scan_result(
    mem: PhysMem,
    start: int,
    end: int,
    pat: Seq<u8>,
    step: int,
    r: Option<u64>,
) -> bool {
    match r {
        Some(a) => is_first_match(mem, start, end, pat, step, a as int),
        None => !has_match(mem, start, end, pat, step),
    }
}

fn matches_at(mem: &PhysMem, a: u64, lookup: &[u8]) -> (r: bool)
    requires
        mem.covers(a as int, a + lookup@.len()),
    ensures
        r == is_match(*mem, a as int, lookup@),
{
    let mut i: usize = 0;
    while i < lookup.len()
        invariant
            i <= lookup@.len(),
            mem.covers(a as int, a + lookup@.len()),
            forall|j: int| 0 <= j < i ==> mem.byte(a + j) == lookup@[j],
        decreases lookup@.len() - i,
    {
        if mem.read_u8(a + i as u64) != lookup[i] {
            assert(mem.window(a as int, lookup@.len() as int)[i as int] != lookup@[i as int]);
            return false;
        }
        i = i + 1;
    }
    assert(mem.window(a as int, lookup@.len() as int) =~= lookup@);
    true
}

proof fn lemma_no_candidate_between(start: int, a: int, b: int, step: int)
    requires
        step >= 1,
        start <= a < b < a + step,
        (a - start) % step == 0,
    ensures
        (b - start) % step != 0,
{
    let x = a - start;
    let y = b - start;
    vstd::arithmetic::div_mod::lemma_fundamental_div_mod(x, step);
    vstd::arithmetic::div_mod::lemma_fundamental_div_mod(y, step);
    if y % step == 0 {
        let (q, p) = (x / step, y / step);
        assert(x == step * q);
        assert(y == step * p);
        assert(q < p) by (nonlinear_arith)
            requires x == step * q, y == step * p, x < y, step >= 1;
        assert(p < q + 1) by (nonlinear_arith)
            requires x == step * q, y == step * p, y < x + step, step >= 1;
    }
}

/// Scans `[start, end)` for `lookup`, trying the offsets `start`, `start + step`,
/// ... up to and including `end - lookup.len()`, and returns the first at
/// which all bytes match. A range with `start > end`, or one shorter than the
/// pattern, has no candidates and gives `None`.
pub fn search(mem: &PhysMem, start: u64, end: u64, lookup: &[u8], step: usize) -> (r: Option<
    u64,
>)
    requires
        step >= 1,
        start <= end ==> mem.covers(start as int, end as int),
    ensures
        scan_result(*mem, start as int, end as int, lookup@, step as int, r),
        start > end ==> r is None,
{
    let len: u64 = lookup.len() as u64;
    if start > end || len > end - start {
        return None;
    }
    let lim: u64 = end - len;
    let stride: u64 = step as u64;
    let mut addr: u64 = start;
    proof {
        vstd::arithmetic::div_mod::lemma_small_mod(0, step as nat);
    }
    loop
        invariant
            start <= addr <= lim,
            lim == end - lookup@.len(),
            len == lookup@.len(),
            stride == step,
            step >= 1,
            mem.covers(start as int, end as int),
            (addr - start) % (step as int) == 0,
            forall|b: int|
                #![trigger is_candidate(start as int, end as int, lookup@.len() as int, step as int, b)]
                is_candidate(start as int, end as int, lookup@.len() as int, step as int, b) && b
                    < addr ==> !is_match(*mem, b, lookup@),
        decreases lim - addr,
    {
        if matches_at(mem, addr, lookup) {
            return Some(addr);
        }
        if lim - addr < stride {
            assert forall|b: int|
                is_candidate(start as int, end as int, lookup@.len() as int, step as int, b)
                    implies !is_match(*mem, b, lookup@) by {
                if b > addr {
                    lemma_no_candidate_between(start as int, addr as int, b, step as int);
                }
            }
            return None;
        }
        let next: u64 = addr + stride;
        assert forall|b: int|
            #![trigger is_candidate(start as int, end as int, lookup@.len() as int, step as int, b)]
            is_candidate(start as int, end as int, lookup@.len() as int, step as int, b) && b
                < next implies !is_match(*mem, b, lookup@) by {
            if b > addr {
                lemma_no_candidate_between(start as int, addr as int, b, step as int);
            }
        }
        assert((next - start) % (step as int) == 0) by {
            vstd::arithmetic::div_mod::lemma_mod_add_multiples_vanish(
                (addr - start) as int,
                step as int,
            );
        }
        addr = next;
    }
}

/// A range whose start lies past its end yields nothing, whatever the pattern.
pub proof fn lemma_scan_degenerate_range(
    mem: PhysMem,
    start: int,
    end: int,
    pat: Seq<u8>,
    step: int,
    r: Option<u64>,
)
    requires
        start > end,
        scan_result(mem, start, end, pat, step, r),
    ensures
        r is None,
{
}

/// Where no candidate of the range holds the pattern, a scan yields nothing.
pub proof fn lemma_scan_absent(
    mem: PhysMem,
    start: int,
    end: int,
    pat: Seq<u8>,
    step: int,
    r: Option<u64>,
)
    requires
        forall|a: int| is_candidate(start, end, pat.len() as int, step, a) ==> !is_match(mem, a, pat),
        scan_result(mem, start, end, pat, step, r),
    ensures
        r is None,
{
}

/// Where exactly one candidate `k` holds the pattern, a scan yields `k`.
pub proof fn lemma_scan_single(
    mem: PhysMem,
    start: int,
    end: int,
    pat: Seq<u8>,
    step: int,
    k: u64,
    r: Option<u64>,
)
    requires
        is_candidate(start, end, pat.len() as int, step, k as int),
        is_match(mem, k as int, pat),
        forall|a: int|
            is_candidate(start, end, pat.len() as int, step, a) && a != k ==> !is_match(mem, a, pat),
        scan_result(mem, start, end, pat, step, r),
    ensures
        r == Some(k),
{
    if r is None {
        assert(is_candidate(start, end, pat.len() as int, step, k as int) && is_match(mem, k as int, pat));
    }
}

/// Where the pattern occurs at two candidates `k1 < k2` and at no candidate
/// below `k1`, the lower address wins.
pub proof fn lemma_scan_lowest_wins(
    mem: PhysMem,
    start: int,
    end: int,
    pat: Seq<u8>,
    step: int,
    k1: u64,
    k2: u64,
    r: Option<u64>,
)
    requires
        k1 < k2,
        is_candidate(start, end, pat.len() as int, step, k1 as int),
        is_candidate(start, end, pat.len() as int, step, k2 as int),
        is_match(mem, k1 as int, pat),
        is_match(mem, k2 as int, pat),
        forall|a: int|
            is_candidate(start, end, pat.len() as int, step, a) && a < k1 ==> !is_match(mem, a, pat),
        scan_result(mem, start, end, pat, step, r),
    ensures
        r == Some(k1),
{
    if r is None {
        assert(is_candidate(start, end, pat.len() as int, step, k1 as int) && is_match(mem, k1 as int, pat));
    } else {
        let a = r->0 as int;
        if a != k1 {
            assert(is_candidate(start, end, pat.len() as int, step, k1 as int));
        }
    }
}

/// Two candidates that are both the lowest match are the same address.
pub proof fn lemma_first_match_unique(
    mem: PhysMem,
    start: int,
    end: int,
    pat: Seq<u8>,
    step: int,
    a: int,
    b: int,
)
    requires
        is_first_match(mem, start, end, pat, step, a),
        is_first_match(mem, start, end, pat, step, b),
    ensures
        a == b,
{
    assert(is_candidate(start, end, pat.len() as int, step, a));
    assert(is_candidate(start, end, pat.len() as int, step, b));
}

/// Copies the bytes at physical addresses `start ..` into `list`.
pub fn bytes_from(mem: &PhysMem, start: u64, list: &mut [u8])
    requires
        mem.covers(start as int, start + old(list)@.len()),
    ensures
        final(list)@ == mem.window(start as int, old(list)@.len() as int),
{
    let n: usize = list.len();
    let mut i: usize = 0;
    while i < n
        invariant
            i <= n,
            n == list@.len(),
            mem.covers(start as int, start + n),
            forall|j: int| 0 <= j < i ==> list@[j] == mem.byte(start + j),
        decreases n - i,
    {
        list[i] = mem.read_u8(start + i as u64);
        i = i + 1;
    }
    assert(list@ =~= mem.window(start as int, n as int));
}

/// True iff the two byte strings are equal.
pub fn same_bytes(a: &[u8], b: &[u8]) -> (r: bool)
    ensures
        r == (a@ == b@),
{
    if a.len() != b.len() {
        return false;
    }
    let mut i: usize = 0;
    while i < a.len()
        invariant
            i <= a@.len(),
            a@.len() == b@.len(),
            forall|j: int| 0 <= j < i ==> a@[j] == b@[j],
        decreases a@.len() - i,
    {
        if a[i] != b[i] {
            return false;
        }
        i = i + 1;
    }
    assert(a@ =~= b@);
    true
}

} // verus!
