//! A bounds-checked view of foreign memory.
//!
//! A [`Region`] is a run of bytes together with the address of its first byte.
//! A [`MemoryView`] is a list of regions. A read of `len` bytes at `addr` is
//! served by the first region that holds the whole block; where no region does,
//! the read yields `None`.

use vstd::prelude::*;
use vstd::set_lib::{lemma_int_range, lemma_len_subset, lemma_len_union, set_int_range};

verus! {

/// One past the largest address.
pub open spec fn address_space() -> int {
    0x1_0000_0000_0000_0000
}

/// The number that two bytes spell in little-endian order.
pub open spec fn le_u16(b: Seq<u8>) -> int
    recommends
        b.len() >= 2,
{
    b[0] as int + 0x100 * (b[1] as int)
}

/// The number that four bytes spell in little-endian order.
pub open spec fn le_u32(b: Seq<u8>) -> int
    recommends
        b.len() >= 4,
{
    b[0] as int + 0x100 * (b[1] as int) + 0x1_0000 * (b[2] as int) + 0x100_0000 * (b[3] as int)
}

/// The number that eight bytes spell in little-endian order.
pub open spec fn le_u64(b: Seq<u8>) -> int
    recommends
        b.len() >= 8,
{
    le_u32(b) + 0x1_0000_0000 * le_u32(b.subrange(4, 8))
}

/// Decodes the two bytes at `at` as a little-endian number.
pub fn decode_u16(bytes: &[u8], at: usize) -> (r: u16)
    requires
        at + 2 <= bytes.len(),
    ensures
        r as int == le_u16(bytes@.subrange(at as int, at + 2)),
{
    let b0: u16 = bytes[at] as u16;
    let b1: u16 = bytes[at + 1] as u16;
    b0 + 0x100 * b1
}

/// Decodes the four bytes at `at` as a little-endian number.
pub fn decode_u32(bytes: &[u8], at: usize) -> (r: u32)
    requires
        at + 4 <= bytes.len(),
    ensures
        r as int == le_u32(bytes@.subrange(at as int, at + 4)),
{
    let b0: u32 = bytes[at] as u32;
    let b1: u32 = bytes[at + 1] as u32;
    let b2: u32 = bytes[at + 2] as u32;
    let b3: u32 = bytes[at + 3] as u32;
    b0 + 0x100 * b1 + 0x1_0000 * b2 + 0x100_0000 * b3
}

/// Decodes the eight bytes at `at` as a little-endian number.
pub fn decode_u64(bytes: &[u8], at: usize) -> (r: u64)
    requires
        at + 8 <= bytes.len(),
    ensures
        r as int == le_u64(bytes@.subrange(at as int, at + 8)),
{
    let low: u64 = decode_u32(bytes, at) as u64;
    let high: u64 = decode_u32(bytes, at + 4) as u64;
    proof {
        let whole = bytes@.subrange(at as int, at + 8);
        assert(whole.subrange(4, 8) =~= bytes@.subrange(at + 4, at + 8));
        assert(le_u32(whole) == le_u32(bytes@.subrange(at as int, at + 4)));
    }
    low + 0x1_0000_0000 * high
}

/// A run of foreign bytes and the address of its first byte.
///
/// The run ends below the largest address: in a region made by
/// [`Region::new`] every byte has an address, and so has the place behind the
/// last byte.
#[derive(Clone, Copy, Debug)]
pub struct Region<'a> {
    base: u64,
    bytes: &'a [u8],
}

impl<'a> Region<'a> {
    /// The address of the first byte.
    pub closed spec fn start(&self) -> int {
        self.base as int
    }

    /// The bytes, in address order.
    pub closed spec fn contents(&self) -> Seq<u8> {
        self.bytes@
    }

    #[verifier::type_invariant]
    closed spec fn fits(&self) -> bool {
        self.base + self.bytes@.len() <= u64::MAX
    }

    /// The region ends below the largest address.
    pub open spec fn wf(&self) -> bool {
        self.start() + self.contents().len() <= u64::MAX
    }

    /// The region holds the whole block of `len` bytes at `addr`.
    pub open spec fn holds(&self, addr: int, len: int) -> bool {
        &&& 0 <= len
        &&& self.start() <= addr
        &&& addr + len <= self.start() + self.contents().len()
    }

    /// The block of `len` bytes at `addr`, for a region that holds it.
    pub open spec fn cut(&self, addr: int, len: int) -> Seq<u8>
        recommends
            self.holds(addr, len),
    {
        self.contents().subrange(addr - self.start(), addr - self.start() + len)
    }

    /// Makes the region of `bytes` at `base`, unless it would reach the largest
    /// address.
    pub fn new(base: u64, bytes: &'a [u8]) -> (r: Option<Region<'a>>)
        ensures
            r is Some <==> base + bytes@.len() <= u64::MAX,
            r matches Some(region) ==> region.start() == base && region.contents() == bytes@,
    {
        if bytes.len() as u64 <= u64::MAX - base {
            Some(Region { base, bytes })
        } else {
            None
        }
    }

    /// The address of the first byte.
    pub fn base(&self) -> (r: u64)
        ensures
            r == self.start(),
            self.wf(),
    {
        proof {
            use_type_invariant(self);
        }
        self.base
    }

    /// The bytes, in address order.
    pub fn bytes(&self) -> (r: &'a [u8])
        ensures
            r@ == self.contents(),
            self.wf(),
    {
        proof {
            use_type_invariant(self);
        }
        self.bytes
    }

    /// The block of `len` bytes at `addr`, where the region holds all of it.
    pub fn window(&self, addr: u64, len: usize) -> (r: Option<&'a [u8]>)
        ensures
            r is Some <==> self.holds(addr as int, len as int),
            r matches Some(s) ==> s@ == self.cut(addr as int, len as int) && s@.len() == len,
    {
        if addr < self.base {
            return None;
        }
        let offset: u64 = addr - self.base;
        let size: usize = self.bytes.len();
        if offset > size as u64 {
            return None;
        }
        let first: usize = offset as usize;
        if len > size - first {
            return None;
        }
        Some(vstd::slice::slice_subrange(self.bytes, first, first + len))
    }
}

/// The block of `len` bytes at `addr` as the first of `regions` that holds it
/// gives it, the regions before index `from` left aside.
pub open spec fn block_from(regions: Seq<Region<'_>>, from: int, addr: int, len: int) -> Option<
    Seq<u8>,
>
    decreases regions.len() - from,
{
    if from < 0 || from >= regions.len() {
        None
    } else if regions[from].holds(addr, len) {
        Some(regions[from].cut(addr, len))
    } else {
        block_from(regions, from + 1, addr, len)
    }
}

/// A block that is there has the length asked for.
pub proof fn lemma_block_len(regions: Seq<Region<'_>>, from: int, addr: int, len: int)
    ensures
        block_from(regions, from, addr, len) matches Some(b) ==> b.len() == len,
    decreases regions.len() - from,
{
    if 0 <= from < regions.len() && !regions[from].holds(addr, len) {
        lemma_block_len(regions, from + 1, addr, len);
    }
}

/// A block that is there is no longer than a slice can be.
pub proof fn lemma_block_fits(regions: Seq<Region<'_>>, from: int, addr: int, len: int)
    ensures
        block_from(regions, from, addr, len) is Some ==> 0 <= len <= usize::MAX,
    decreases regions.len() - from,
{
    if 0 <= from < regions.len() {
        if regions[from].holds(addr, len) {
            assert(regions[from].contents().len() == vstd::slice::spec_slice_len(
                regions[from].bytes,
            ));
        } else {
            lemma_block_fits(regions, from + 1, addr, len);
        }
    }
}

/// The number of bytes in the regions from index `from` on.
pub open spec fn bytes_from(regions: Seq<Region<'_>>, from: int) -> int
    decreases regions.len() - from,
{
    if from < 0 || from >= regions.len() {
        0
    } else {
        regions[from].contents().len() + bytes_from(regions, from + 1)
    }
}

/// A view of foreign memory: byte ranges, searched in the order given.
#[derive(Clone, Debug)]
pub struct MemoryView<'a> {
    pub regions: Vec<Region<'a>>,
}

impl<'a> MemoryView<'a> {
    /// The block of `len` bytes at `addr`, or `None` where no region holds it.
    pub open spec fn block(&self, addr: int, len: int) -> Option<Seq<u8>> {
        block_from(self.regions@, 0, addr, len)
    }

    /// The little-endian `u16` at `addr`.
    pub open spec fn u16_at(&self, addr: int) -> Option<u16> {
        match self.block(addr, 2) {
            Some(b) => Some(le_u16(b) as u16),
            None => None,
        }
    }

    /// The little-endian `u32` at `addr`.
    pub open spec fn u32_at(&self, addr: int) -> Option<u32> {
        match self.block(addr, 4) {
            Some(b) => Some(le_u32(b) as u32),
            None => None,
        }
    }

    /// The little-endian `u64` at `addr`.
    pub open spec fn u64_at(&self, addr: int) -> Option<u64> {
        match self.block(addr, 8) {
            Some(b) => Some(le_u64(b) as u64),
            None => None,
        }
    }

    /// The number of bytes in all regions together.
    pub open spec fn size(&self) -> int {
        bytes_from(self.regions@, 0)
    }

    /// A view of the given regions.
    pub fn new(regions: Vec<Region<'a>>) -> (view: MemoryView<'a>)
        ensures
            view.regions == regions,
    {
        MemoryView { regions }
    }

    /// The block of `len` bytes at `addr`, borrowed from the region that holds
    /// it.
    pub fn slice(&self, addr: u64, len: usize) -> (r: Option<&'a [u8]>)
        ensures
            r is Some <==> self.block(addr as int, len as int) is Some,
            r matches Some(s) ==> self.block(addr as int, len as int) == Some(s@) && s@.len()
                == len,
    {
        let mut i: usize = 0;
        while i < self.regions.len()
            invariant
                i <= self.regions.len(),
                self.block(addr as int, len as int) == block_from(
                    self.regions@,
                    i as int,
                    addr as int,
                    len as int,
                ),
            decreases self.regions.len() - i,
        {
            match self.regions[i].window(addr, len) {
                Some(s) => {
                    return Some(s);
                },
                None => {},
            }
            i += 1;
        }
        None
    }

    /// A copy of the block of `len` bytes at `addr`.
    pub fn read_bytes(&self, addr: u64, len: usize) -> (r: Option<Vec<u8>>)
        ensures
            r is Some <==> self.block(addr as int, len as int) is Some,
            r matches Some(v) ==> self.block(addr as int, len as int) == Some(v@) && v@.len()
                == len,
    {
        match self.slice(addr, len) {
            Some(s) => Some(vstd::slice::slice_to_vec(s)),
            None => None,
        }
    }

    /// The little-endian `u16` at `addr`.
    pub fn read_u16(&self, addr: u64) -> (r: Option<u16>)
        ensures
            r == self.u16_at(addr as int),
    {
        match self.slice(addr, 2) {
            Some(s) => {
                assert(s@.subrange(0, 2) =~= s@);
                Some(decode_u16(s, 0))
            },
            None => None,
        }
    }

    /// The little-endian `u32` at `addr`.
    pub fn read_u32(&self, addr: u64) -> (r: Option<u32>)
        ensures
            r == self.u32_at(addr as int),
    {
        match self.slice(addr, 4) {
            Some(s) => {
                assert(s@.subrange(0, 4) =~= s@);
                Some(decode_u32(s, 0))
            },
            None => None,
        }
    }

    /// The little-endian `u64` at `addr`.
    pub fn read_u64(&self, addr: u64) -> (r: Option<u64>)
        ensures
            r == self.u64_at(addr as int),
    {
        match self.slice(addr, 8) {
            Some(s) => {
                assert(s@.subrange(0, 8) =~= s@);
                Some(decode_u64(s, 0))
            },
            None => None,
        }
    }

    /// The number of bytes in all regions together, or the largest `u64` where
    /// that is less.
    pub open spec fn extent(&self) -> nat {
        if self.size() <= u64::MAX {
            self.size() as nat
        } else {
            u64::MAX as nat
        }
    }

    /// The number of bytes in all regions together, or the largest `u64` where
    /// that is less.
    pub fn mapped_bytes(&self) -> (n: u64)
        ensures
            n == self.extent(),
    {
        let mut total: u64 = 0;
        let mut i: usize = self.regions.len();
        while i > 0
            invariant
                i <= self.regions.len(),
                total == if bytes_from(self.regions@, i as int) <= u64::MAX {
                    bytes_from(self.regions@, i as int)
                } else {
                    u64::MAX as int
                },
            decreases i,
        {
            i -= 1;
            total = total.saturating_add(self.regions[i].bytes().len() as u64);
        }
        total
    }
}

/// The addresses of the bytes in the regions from index `from` on.
pub open spec fn covered_from(regions: Seq<Region<'_>>, from: int) -> Set<int>
    decreases regions.len() - from,
{
    if from < 0 || from >= regions.len() {
        Set::empty()
    } else {
        set_int_range(
            regions[from].start(),
            regions[from].start() + regions[from].contents().len(),
        ).union(covered_from(regions, from + 1))
    }
}

/// The regions cover no more addresses than they have bytes.
pub proof fn lemma_covered_is_small(regions: Seq<Region<'_>>, from: int)
    requires
        0 <= from,
    ensures
        covered_from(regions, from).finite(),
        covered_from(regions, from).len() <= bytes_from(regions, from),
    decreases regions.len() - from,
{
    if from < regions.len() {
        let first = set_int_range(
            regions[from].start(),
            regions[from].start() + regions[from].contents().len(),
        );
        lemma_int_range(
            regions[from].start(),
            regions[from].start() + regions[from].contents().len(),
        );
        lemma_covered_is_small(regions, from + 1);
        lemma_len_union(first, covered_from(regions, from + 1));
        vstd::set_lib::lemma_set_union_finite_iff(first, covered_from(regions, from + 1));
    }
}

/// The first address of a block that is there is a covered address.
pub proof fn lemma_block_is_covered(regions: Seq<Region<'_>>, from: int, addr: int, len: int)
    requires
        0 <= from,
        1 <= len,
        block_from(regions, from, addr, len) is Some,
    ensures
        covered_from(regions, from).contains(addr),
    decreases regions.len() - from,
{
    if from < regions.len() {
        if !regions[from].holds(addr, len) {
            lemma_block_is_covered(regions, from + 1, addr, len);
        }
    }
}

/// Numbers that differ from one another and all lie in a finite set are no
/// more than the set has members.
pub proof fn lemma_distinct_within(numbers: Seq<int>, bound: Set<int>)
    requires
        bound.finite(),
        numbers.no_duplicates(),
        forall|i: int| 0 <= i < numbers.len() ==> bound.contains(#[trigger] numbers[i]),
    ensures
        numbers.len() <= bound.len(),
{
    numbers.unique_seq_to_set();
    assert(numbers.to_set().subset_of(bound)) by {
        assert forall|a: int| numbers.to_set().contains(a) implies bound.contains(a) by {
            let i = choose|i: int| 0 <= i < numbers.len() && numbers[i] == a;
            assert(bound.contains(numbers[i]));
        }
    }
    lemma_len_subset(numbers.to_set(), bound);
}

/// Addresses other than null that differ from one another, each the first of
/// a block that the view holds, are no more than the view has bytes.
pub proof fn lemma_readable_addresses_are_few(view: MemoryView<'_>, addrs: Seq<u64>, len: int)
    requires
        1 <= len,
        addrs.no_duplicates(),
        forall|i: int|
            0 <= i < addrs.len() ==> (#[trigger] addrs[i]) != 0 && view.block(
                addrs[i] as int,
                len,
            ) is Some,
    ensures
        addrs.len() <= view.extent(),
{
    let numbers = Seq::new(addrs.len(), |i: int| addrs[i] as int);
    assert(numbers.no_duplicates()) by {
        assert forall|i: int, j: int|
            0 <= i < numbers.len() && 0 <= j < numbers.len() && i != j implies numbers[i]
            != numbers[j] by {
            assert(addrs[i] != addrs[j]);
        }
    }
    let covered = covered_from(view.regions@, 0);
    lemma_covered_is_small(view.regions@, 0);
    assert forall|i: int| 0 <= i < numbers.len() implies covered.contains(
        #[trigger] numbers[i],
    ) by {
        assert(addrs[i] != 0);
        lemma_block_is_covered(view.regions@, 0, addrs[i] as int, len);
    }
    lemma_distinct_within(numbers, covered);
    let space = set_int_range(1, address_space());
    lemma_int_range(1, address_space());
    assert forall|i: int| 0 <= i < numbers.len() implies space.contains(#[trigger] numbers[i]) by {
        assert(addrs[i] != 0);
    }
    lemma_distinct_within(numbers, space);
}

} // verus!
