//! The bootstrap physical-frame allocator: a linear scan over the firmware's
//! available-RAM regions that hands out one page-aligned frame per call,
//! skipping anything that overlaps the kernel image or the boot-information
//! block. It runs before any virtual-memory bookkeeping exists and never
//! takes a frame back.
//!
//! The regions are kept in the order the firmware listed them. Firmware maps
//! are in practice ascending and disjoint (`ordered`); the scan works either
//! way, but only an ordered record guarantees that no frame is ever handed
//! out twice.
use vstd::prelude::*;

use crate::addr::PhyAddr;
use crate::memmap::{Memory, MemoryType};
use crate::page_allocator::AllocationError;
use crate::table::{valid_frame_addr, PHYS_ADDR_LIMIT};

verus! {

/// True when the half-open ranges `[a0, a1)` and `[b0, b1)` are both
/// nonempty and intersect.
pub open spec fn overlaps(a0: u64, a1: u64, b0: u64, b1: u64) -> bool {
    a0 < a1 && b0 < b1 && a0 < b1 && b0 < a1
}

/// Exec mirror of `overlaps`.
pub fn ranges_overlap(a0: u64, a1: u64, b0: u64, b1: u64) -> (r: bool)
    ensures
        r == overlaps(a0, a1, b0, b1),
{
    a0 < a1 && b0 < b1 && a0 < b1 && b0 < a1
}

/// Two multiples of the page size are at least a whole page apart.
pub proof fn lemma_aligned_gap(a: u64, b: u64)
    requires
        a % 4096 == 0,
        b % 4096 == 0,
        a < b,
    ensures
        a + 4096 <= b,
{
    assert((a % 4096 == 0 && b % 4096 == 0 && a < b) ==> a + 4096 <= b) by (nonlinear_arith);
}

/// A page-aligned frame of physical memory whose ownership has passed to the
/// caller.
#[derive(Debug, Copy, Clone, PartialEq, Eq, Structural)]
pub struct Page {
    pub base_addr: PhyAddr,
}

impl Page {
    /// The physical range the frame covers.
    pub fn range(&self) -> (r: (PhyAddr, PhyAddr))
        ensures
            r.0 == self.base_addr,
            r.1.0 == crate::addr::wrap_add64(self.base_addr.0, 4096),
    {
        (self.base_addr, self.base_addr.wrapping_add(4096))
    }
}

/// The bootstrap allocator's record: the clipped available-RAM sections in
/// the firmware's order, the scan cursor, and the two excluded extents.
pub struct AllocatedPageDirectory {
    pub next_page: PhyAddr,
    pub current_section: usize,
    pub mem_sections: Vec<(PhyAddr, PhyAddr)>,
    pub kernel: (PhyAddr, PhyAddr),
    pub boot_info: (PhyAddr, PhyAddr),
}

impl AllocatedPageDirectory {
    #[verifier::inline]
    pub open spec fn sec_start(self, j: int) -> u64 {
        self.mem_sections@[j].0.0
    }

    #[verifier::inline]
    pub open spec fn sec_end(self, j: int) -> u64 {
        self.mem_sections@[j].1.0
    }

    #[verifier::inline]
    pub open spec fn n_secs(self) -> int {
        self.mem_sections@.len() as int
    }

    pub open spec fn wf(self) -> bool {
        &&& self.mem_sections@.len() <= 32
        &&& (forall|j: int|
            0 <= j < self.n_secs() ==> {
                &&& (#[trigger] self.sec_start(j)) % 4096 == 0
                &&& self.sec_end(j) % 4096 == 0
                &&& self.sec_start(j) <= self.sec_end(j)
                &&& self.sec_end(j) <= PHYS_ADDR_LIMIT
            })
        &&& self.current_section <= self.n_secs()
        &&& self.next_page.0 % 4096 == 0
        &&& (self.current_section < self.n_secs() ==> self.sec_start(self.current_section as int)
            <= self.next_page.0 <= self.sec_end(self.current_section as int))
    }

    /// True when the firmware listed the sections ascending and disjoint.
    /// The scan then visits frames in address order, so no frame can come
    /// out twice.
    pub open spec fn ordered(self) -> bool {
        forall|j: int| 0 < j < self.n_secs() ==> self.sec_end(j - 1) <= #[trigger] self.sec_start(j)
    }

    /// True when the frame at `f` overlaps the kernel image or the
    /// boot-information block and must never be handed out.
    pub open spec fn blocked(self, f: u64) -> bool {
        ||| overlaps(f, (f + 4096) as u64, self.kernel.0.0, self.kernel.1.0)
        ||| overlaps(f, (f + 4096) as u64, self.boot_info.0.0, self.boot_info.1.0)
    }

    /// True when section `j` still has the frame at `f` ahead of the cursor.
    pub open spec fn fits_at(self, f: u64, j: int) -> bool {
        &&& self.current_section <= j < self.n_secs()
        &&& self.sec_start(j) <= f
        &&& f + 4096 <= self.sec_end(j)
        &&& (j > self.current_section || f >= self.next_page.0)
    }

    /// True when the frame at `f` can still be produced by some later call.
    pub open spec fn free_from(self, f: u64) -> bool {
        &&& f % 4096 == 0
        &&& !self.blocked(f)
        &&& exists|j: int| self.fits_at(f, j)
    }

    /// The cursor one section further on.
    pub open spec fn advanced(self) -> AllocatedPageDirectory {
        AllocatedPageDirectory {
            current_section: (self.current_section + 1) as usize,
            next_page: if self.current_section + 1 < self.n_secs() {
                PhyAddr(self.sec_start(self.current_section + 1))
            } else {
                PhyAddr(0)
            },
            ..self
        }
    }

    /// The cursor one frame further on.
    pub open spec fn bumped(self) -> AllocatedPageDirectory {
        AllocatedPageDirectory { next_page: PhyAddr((self.next_page.0 + 4096) as u64), ..self }
    }

    /// How many frames the scan can still hand out from the cursor.
    pub open spec fn avail_from(self) -> nat
        decreases self.n_secs() - self.current_section, self.sec_end(self.current_section as int) - self.next_page.0,
    {
        if self.current_section >= self.n_secs() || self.current_section >= 32 {
            0
        } else if self.next_page.0 > self.sec_end(self.current_section as int) {
            0
        } else if !(self.next_page.0 + 4096 <= self.sec_end(self.current_section as int)) {
            self.advanced().avail_from()
        } else if self.blocked(self.next_page.0) {
            self.bumped().avail_from()
        } else {
            1 + self.bumped().avail_from()
        }
    }
}

/// Total bytes the recorded sections span.
pub open spec fn sections_total(s: Seq<(PhyAddr, PhyAddr)>) -> int
    decreases s.len(),
{
    if s.len() == 0 {
        0
    } else {
        sections_total(s.drop_last()) + (if s.last().1.0 > s.last().0.0 {
            s.last().1.0 - s.last().0.0
        } else {
            0
        })
    }
}

/// The page-aligned start of the usable part of a firmware region.
pub open spec fn clip_start(e: Memory) -> u64 {
    crate::addr::align_up64(e.base_addr.0, 4096)
}

/// The page-aligned end of the usable part of a firmware region, clamped to
/// what the entry format can address.
pub open spec fn clip_end(e: Memory) -> u64 {
    let sum = if e.length > u64::MAX - e.base_addr.0 {
        u64::MAX
    } else {
        (e.base_addr.0 + e.length) as u64
    };
    let down = (sum - sum % 4096) as u64;
    if down > PHYS_ADDR_LIMIT {
        PHYS_ADDR_LIMIT
    } else {
        down
    }
}

/// True when a firmware region survives clipping: available RAM, not at the
/// very top of the address space, and at least one whole page.
pub open spec fn keeps(e: Memory) -> bool {
    &&& e.mem_type == MemoryType::AvailableRAM
    &&& e.base_addr.0 <= u64::MAX - 4095
    &&& clip_start(e) < clip_end(e)
}

/// The sections the bootstrap allocator keeps from the first `n` firmware
/// regions: every available-RAM region that clips to at least one page, in
/// the firmware's order, up to the record's capacity.
pub open spec fn build_sections(entries: Seq<Memory>, n: int) -> Seq<(PhyAddr, PhyAddr)>
    decreases n,
{
    if n <= 0 {
        Seq::empty()
    } else {
        let s = build_sections(entries, n - 1);
        let e = entries[n - 1];
        if s.len() < 32 && keeps(e) {
            s.push((PhyAddr(clip_start(e)), PhyAddr(clip_end(e))))
        } else {
            s
        }
    }
}

/// A clipped region starts and ends on page boundaries.
pub proof fn lemma_clip_aligned(e: Memory)
    requires
        e.base_addr.0 <= u64::MAX - 4095,
    ensures
        clip_start(e) % 4096 == 0,
        clip_end(e) % 4096 == 0,
        clip_end(e) <= PHYS_ADDR_LIMIT,
        clip_start(e) >= e.base_addr.0,
{
    let a = e.base_addr.0;
    if a % 4096 != 0 {
        assert((a + (4096 - a % 4096)) % 4096 == 0) by (nonlinear_arith);
        assert(a + (4096 - a % 4096) <= u64::MAX);
    }
    let sum = if e.length > u64::MAX - a {
        u64::MAX
    } else {
        (a + e.length) as u64
    };
    assert((sum - sum % 4096) % 4096 == 0) by (nonlinear_arith);
    assert(PHYS_ADDR_LIMIT % 4096 == 0);
}

/// Build the bootstrap allocator's record from the firmware's region
/// descriptors and the two physical extents that must never be handed out:
/// the kernel image and the boot-information block. The cursor starts at
/// the first kept section.
pub fn init_page_alloc(
    entries: &Vec<Memory>,
    kernel: (PhyAddr, PhyAddr),
    boot_info: (PhyAddr, PhyAddr),
) -> (r: AllocatedPageDirectory)
    ensures
        r.wf(),
        r.mem_sections@ == build_sections(entries@, entries@.len() as int),
        r.kernel == kernel,
        r.boot_info == boot_info,
        r.current_section == 0,
        r.mem_sections@.len() > 0 ==> r.next_page.0 == r.mem_sections@[0].0.0,
{
    let mut sections: Vec<(PhyAddr, PhyAddr)> = Vec::new();
    let mut i: usize = 0;
    while i < entries.len()
        invariant
            i <= entries@.len(),
            sections@ == build_sections(entries@, i as int),
            sections@.len() <= 32,
            forall|j: int|
                0 <= j < sections@.len() ==> {
                    &&& (#[trigger] sections@[j]).0.0 % 4096 == 0
                    &&& sections@[j].1.0 % 4096 == 0
                    &&& sections@[j].0.0 <= sections@[j].1.0
                    &&& sections@[j].1.0 <= PHYS_ADDR_LIMIT
                },
        decreases entries@.len() - i,
    {
        let e = entries[i];
        proof {
            vstd::arithmetic::power2::lemma2_to64();
            assert(4096 == vstd::arithmetic::power2::pow2(12));
        }
        let keep: bool = if sections.len() < 32 && matches!(e.mem_type, MemoryType::AvailableRAM)
            && e.base_addr.0 <= u64::MAX - 4095 {
            let start = e.base_addr.align_to(4096);
            let sum = if e.length > u64::MAX - e.base_addr.0 {
                u64::MAX
            } else {
                e.base_addr.0 + e.length
            };
            let down = sum - sum % 4096;
            let end = if down > PHYS_ADDR_LIMIT {
                PHYS_ADDR_LIMIT
            } else {
                down
            };
            proof {
                lemma_clip_aligned(e);
            }
            start.0 < end
        } else {
            false
        };
        if keep {
            proof {
                lemma_clip_aligned(e);
            }
            let start = e.base_addr.align_to(4096);
            let sum = if e.length > u64::MAX - e.base_addr.0 {
                u64::MAX
            } else {
                e.base_addr.0 + e.length
            };
            let down = sum - sum % 4096;
            let end = if down > PHYS_ADDR_LIMIT {
                PHYS_ADDR_LIMIT
            } else {
                down
            };
            sections.push((start, PhyAddr(end)));
        }
        i = i + 1;
    }
    let next_page = if sections.len() > 0 {
        sections[0].0
    } else {
        PhyAddr(0)
    };
    AllocatedPageDirectory {
        next_page,
        current_section: 0,
        mem_sections: sections,
        kernel,
        boot_info,
    }
}

/// Hand out the next frame still free: inside an available-RAM section,
/// ahead of the scan cursor, and never overlapping the kernel image or the
/// boot-information block. On an ordered record it is the lowest free frame
/// outright. `OutOfMemory` exactly when no free frame is left, in which case
/// nothing changes.
pub fn page_alloc(apd: &mut AllocatedPageDirectory) -> (r: Result<Page, AllocationError>)
    requires
        old(apd).wf(),
    ensures
        final(apd).wf(),
        final(apd).mem_sections == old(apd).mem_sections,
        final(apd).kernel == old(apd).kernel,
        final(apd).boot_info == old(apd).boot_info,
        r is Ok <==> old(apd).avail_from() > 0,
        r matches Ok(p) ==> {
            &&& old(apd).free_from(p.base_addr.0)
            &&& valid_frame_addr(p.base_addr.0)
            &&& !old(apd).blocked(p.base_addr.0)
            &&& final(apd).next_page.0 == p.base_addr.0 + 4096
            &&& final(apd).avail_from() == old(apd).avail_from() - 1
            &&& (old(apd).ordered() ==> p.base_addr.0 >= old(apd).next_page.0)
            &&& (old(apd).ordered() ==> (forall|g: u64|
                old(apd).free_from(g) ==> g >= p.base_addr.0))
        },
        r is Err ==> r == Err::<Page, AllocationError>(AllocationError::OutOfMemory) && *final(apd)
            == *old(apd) && old(apd).avail_from() == 0,
{
    let mut cs: usize = apd.current_section;
    let mut next: PhyAddr = apd.next_page;
    let ghost orig = *old(apd);
    loop
        invariant
            orig == *old(apd),
            *apd == orig,
            orig.wf(),
            cur_state(orig, cs, next).wf(),
            cur_state(orig, cs, next).avail_from() == orig.avail_from(),
            forall|g: u64| orig.free_from(g) == cur_state(orig, cs, next).free_from(g),
            next.0 >= orig.next_page.0 || cs > orig.current_section,
            cs >= orig.current_section,
        decreases cur_state(orig, cs, next).n_secs() - cs, cur_state(
            orig,
            cs,
            next,
        ).sec_end(cs as int) - next.0,
    {
        let ghost st = cur_state(orig, cs, next);
        if cs >= apd.mem_sections.len() {
            return Err(AllocationError::OutOfMemory);
        }
        let sec = apd.mem_sections[cs];
        if next.0 > sec.1.0 {
            // outside any state the invariant admits
            proof {
                assert(false);
            }
            return Err(AllocationError::OutOfMemory);
        }
        if next.0 + 4096 > sec.1.0 {
            // section exhausted: move to the start of the next one
            proof {
                lemma_free_advanced(st);
            }
            cs = cs + 1;
            next = if cs < apd.mem_sections.len() {
                apd.mem_sections[cs].0
            } else {
                PhyAddr(0)
            };
            proof {
                assert(cur_state(orig, cs, next) == st.advanced());
            }
        } else {
            let f = next;
            let k = apd.kernel;
            let b = apd.boot_info;
            let hit_kernel = ranges_overlap(f.0, f.0 + 4096, k.0.0, k.1.0);
            let hit_boot = ranges_overlap(f.0, f.0 + 4096, b.0.0, b.1.0);
            if hit_kernel || hit_boot {
                proof {
                    lemma_free_bumped(st);
                }
                next = PhyAddr(f.0 + 4096);
                proof {
                    assert(cur_state(orig, cs, next) == st.bumped());
                }
            } else {
                proof {
                    lemma_free_bumped(st);
                    assert(st.free_from(f.0));
                    assert(orig.free_from(f.0));
                    if orig.ordered() {
                        assert forall|g: u64| orig.free_from(g) implies g >= f.0 by {
                            assert(st.free_from(g));
                            let j = choose|j: int| st.fits_at(g, j);
                            assert(st.fits_at(g, j));
                            if j > cs {
                                assert(st.sec_end(cs as int) <= st.sec_start(j)) by {
                                    lemma_sections_ordered(st, cs as int, j);
                                }
                            }
                        }
                        if cs > orig.current_section {
                            lemma_sections_ordered(st, orig.current_section as int, cs as int);
                        }
                    }
                }
                apd.current_section = cs;
                apd.next_page = PhyAddr(f.0 + 4096);
                proof {
                    assert(*apd == cur_state(orig, cs, next).bumped());
                }
                return Ok(Page { base_addr: f });
            }
        }
    }
}

/// The bootstrap record `orig` with its cursor moved to (`cs`, `next`).
pub open spec fn cur_state(
    orig: AllocatedPageDirectory,
    cs: usize,
    next: PhyAddr,
) -> AllocatedPageDirectory {
    AllocatedPageDirectory { current_section: cs, next_page: next, ..orig }
}

/// Sections further on start no earlier than the current one ends.
pub proof fn lemma_sections_ordered(s: AllocatedPageDirectory, a: int, b: int)
    requires
        s.wf(),
        s.ordered(),
        0 <= a < b < s.n_secs(),
    ensures
        s.sec_end(a) <= s.sec_start(b),
    decreases b - a,
{
    assert(s.sec_end(b - 1) <= s.sec_start(b));
    if a < b - 1 {
        lemma_sections_ordered(s, a, b - 1);
        assert(s.sec_start(b - 1) <= s.sec_end(b - 1));
    }
}

/// Moving to the next section neither loses nor gains a free frame: the
/// frames left behind no longer fit the exhausted section.
pub proof fn lemma_free_advanced(s: AllocatedPageDirectory)
    requires
        s.wf(),
        s.current_section < s.n_secs(),
        s.next_page.0 + 4096 > s.sec_end(s.current_section as int),
    ensures
        s.advanced().wf(),
        forall|g: u64| s.free_from(g) == s.advanced().free_from(g),
{
    let t = s.advanced();
    let cs = s.current_section as int;
    assert(t.mem_sections == s.mem_sections);
    if cs + 1 < s.n_secs() {
        assert(s.sec_start(cs + 1) % 4096 == 0 && s.sec_start(cs + 1) <= s.sec_end(cs + 1));
    }
    assert(t.wf());
    assert forall|g: u64| s.free_from(g) == t.free_from(g) by {
        if s.free_from(g) {
            let j = choose|j: int| s.fits_at(g, j);
            assert(s.fits_at(g, j));
            if j == cs {
                assert(g >= s.next_page.0);
                assert(g + 4096 <= s.sec_end(cs));
                assert(false);
            }
            assert(t.fits_at(g, j));
            assert(t.free_from(g));
        }
        if t.free_from(g) {
            let j = choose|j: int| t.fits_at(g, j);
            assert(t.fits_at(g, j));
            assert(s.fits_at(g, j));
            assert(s.free_from(g));
        }
    }
}

/// Stepping over one frame neither loses nor gains any other free frame:
/// the frame stepped over was blocked or does not fit.
pub proof fn lemma_free_bumped(s: AllocatedPageDirectory)
    requires
        s.wf(),
        s.current_section < s.n_secs(),
        s.next_page.0 + 4096 <= s.sec_end(s.current_section as int),
    ensures
        s.bumped().wf(),
        s.blocked(s.next_page.0) ==> forall|g: u64| s.free_from(g) == s.bumped().free_from(g),
        !s.blocked(s.next_page.0) ==> {
            &&& s.free_from(s.next_page.0)
            &&& forall|g: u64| g != s.next_page.0 ==> s.free_from(g) == s.bumped().free_from(g)
        },
        (s.ordered() && !s.blocked(s.next_page.0)) ==> !s.bumped().free_from(s.next_page.0),
{
    let t = s.bumped();
    let cs = s.current_section as int;
    let f = s.next_page.0;
    assert(t.mem_sections == s.mem_sections);
    assert(t.wf());
    assert forall|g: u64| g != f implies s.free_from(g) == t.free_from(g) by {
        if s.free_from(g) {
            let j = choose|j: int| s.fits_at(g, j);
            assert(s.fits_at(g, j));
            if j == cs {
                assert(g >= f);
                assert(g > f);
                lemma_aligned_gap(f, g);
                assert(g >= t.next_page.0);
            }
            assert(t.fits_at(g, j));
            assert(t.free_from(g));
        }
        if t.free_from(g) {
            let j = choose|j: int| t.fits_at(g, j);
            assert(t.fits_at(g, j));
            assert(s.fits_at(g, j));
            assert(s.free_from(g));
        }
    }
    if !s.blocked(f) {
        assert(s.fits_at(f, cs));
        assert(s.free_from(f));
        if s.ordered() && t.free_from(f) {
            let j = choose|j: int| t.fits_at(f, j);
            assert(t.fits_at(f, j));
            if j == cs {
                assert(f >= t.next_page.0);
                assert(false);
            } else {
                lemma_sections_ordered(s, cs, j);
                assert(s.sec_start(j) <= f);
                assert(f <= s.sec_end(cs));
                assert(false);
            }
        }
    }
}

} // verus!
