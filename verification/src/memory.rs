//! The module's linear memory: a growable byte arena shared with the host.
//!
//! Address `0` is reserved as the null sentinel, so every reservation the
//! arena hands out has a nonzero start address.

use vstd::prelude::*;

use crate::alpha::blend_alpha;
use crate::alpha::occluded_alpha;

verus! {

/// What one reservation does to the linear memory: the fresh region starts
/// where the memory ended, the memory grows by exactly `size` bytes, and
/// every byte that already existed keeps its value.
pub open spec fn reserve_post(pre: Seq<u8>, post: Seq<u8>, size: int, addr: int) -> bool {
    &&& addr == pre.len()
    &&& post.len() == pre.len() + size
    &&& forall|j: int| 0 <= j < pre.len() ==> post[j] == pre[j]
}

/// Two consecutive reservations of `n1` and `n2` bytes return regions
/// `[a1, a1 + n1)` and `[a2, a2 + n2)` that do not overlap: the second
/// region starts at or after the end of the first.
pub proof fn lemma_consecutive_reserves_disjoint(
    m0: Seq<u8>,
    m1: Seq<u8>,
    m2: Seq<u8>,
    n1: int,
    n2: int,
    a1: int,
    a2: int,
)
    requires
        reserve_post(m0, m1, n1, a1),
        reserve_post(m1, m2, n2, a2),
    ensures
        a1 + n1 <= a2,
{
}

/// Whether byte `j` of the memory is an alpha byte of the target buffer that
/// the composite processes: it lies in `[target, target + len)` and its
/// offset within the buffer is 3 modulo 4 (RGBA8 layout).
pub open spec fn is_processed_alpha(j: int, target: int, len: int) -> bool {
    &&& target <= j < target + len
    &&& (j - target) % 4 == 3
}

/// The memory after `alpha_composite_inplace(target, occluder, len)` on
/// memory `pre`. A null (zero) address makes the call a no-op. Otherwise each alpha
/// byte of the target buffer is replaced by the occlusion formula applied to
/// it and to the occluder's alpha byte at the same buffer offset; every
/// other byte of the memory keeps its value.
pub open spec fn composite_spec(pre: Seq<u8>, target: int, occluder: int, len: int) -> Seq<u8> {
    if target == 0 || occluder == 0 {
        pre
    } else {
        Seq::new(
            pre.len(),
            |j: int|
                if is_processed_alpha(j, target, len) {
                    occluded_alpha(pre[j], pre[occluder + (j - target)])
                } else {
                    pre[j]
                },
        )
    }
}

/// The composite touches only the processed alpha bytes of the target
/// buffer: memory keeps its length, and every byte at any other offset is
/// bit-for-bit identical before and after the call.
pub proof fn lemma_composite_touches_only_alpha(pre: Seq<u8>, target: int, occluder: int, len: int)
    ensures
        composite_spec(pre, target, occluder, len).len() == pre.len(),
        forall|j: int|
            0 <= j < pre.len() && !is_processed_alpha(j, target, len)
                ==> composite_spec(pre, target, occluder, len)[j] == pre[j],
{
}

/// A fully transparent occluder changes nothing: if every occluder alpha
/// byte below `len` is 0, the memory is unchanged.
pub proof fn lemma_composite_transparent_occluder(
    pre: Seq<u8>,
    target: int,
    occluder: int,
    len: int,
)
    requires
        0 <= target,
        0 <= occluder,
        target + len <= pre.len(),
        occluder + len <= pre.len(),
        forall|r: int| 0 <= r < len && r % 4 == 3 ==> #[trigger] pre[occluder + r] == 0,
    ensures
        composite_spec(pre, target, occluder, len) == pre,
{
    if target != 0 && occluder != 0 {
        assert forall|j: int|
            0 <= j < pre.len() implies composite_spec(pre, target, occluder, len)[j] == pre[j] by {
            if is_processed_alpha(j, target, len) {
                assert(pre[occluder + (j - target)] == 0);
                crate::alpha::lemma_occluded_alpha_transparent(pre[j]);
            }
        }
        assert(composite_spec(pre, target, occluder, len) =~= pre);
    }
}

/// A fully opaque occluder blanks the target's alpha channel: if every
/// occluder alpha byte below `len` is 255, every processed target alpha
/// byte becomes 0.
pub proof fn lemma_composite_opaque_occluder(pre: Seq<u8>, target: int, occluder: int, len: int)
    requires
        0 < target,
        0 < occluder,
        target + len <= pre.len(),
        occluder + len <= pre.len(),
        forall|r: int| 0 <= r < len && r % 4 == 3 ==> #[trigger] pre[occluder + r] == 255,
    ensures
        forall|r: int|
            0 <= r < len && r % 4 == 3
                ==> #[trigger] composite_spec(pre, target, occluder, len)[target + r] == 0,
{
    assert forall|r: int|
        0 <= r < len && r % 4 == 3 implies #[trigger] composite_spec(pre, target, occluder, len)[target
        + r] == 0 by {
        assert(is_processed_alpha(target + r, target, len));
        crate::alpha::lemma_occluded_alpha_opaque(pre[target + r]);
    }
}

/// A zero `len` means zero iterations: the memory is unchanged, whatever
/// the addresses are.
pub proof fn lemma_composite_zero_length(pre: Seq<u8>, target: int, occluder: int)
    ensures
        composite_spec(pre, target, occluder, 0) == pre,
{
    assert(composite_spec(pre, target, occluder, 0) =~= pre);
}

/// The linear memory of the module. The host reads and writes bytes in it
/// directly; the arena only ever grows it.
pub struct Memory {
    bytes: Vec<u8>,
}

impl View for Memory {
    type V = Seq<u8>;

    closed spec fn view(&self) -> Seq<u8> {
        self.bytes@
    }
}

impl Memory {
    /// Address 0 is reserved, so reservations always start at a nonzero
    /// address and `0` can serve as the null sentinel.
    pub open spec fn wf(&self) -> bool {
        self@.len() >= 1
    }

    /// A fresh linear memory holding only the reserved null byte.
    pub fn new() -> (m: Memory)
        ensures
            m.wf(),
            m@.len() == 1,
    {
        let mut bytes: Vec<u8> = Vec::new();
        bytes.push(0);
        Memory { bytes }
    }

    /// The current size of the linear memory in bytes.
    pub fn size(&self) -> (n: usize)
        ensures
            n == self@.len(),
    {
        self.bytes.len()
    }

    /// Reads one byte, as the host does when it reads a result back.
    pub fn load(&self, addr: usize) -> (b: u8)
        requires
            addr < self@.len(),
        ensures
            b == self@[addr as int],
    {
        self.bytes[addr]
    }

    /// Discards every reservation at once, returning the memory to its
    /// fresh state. This is the only reclamation the module offers: there
    /// is no per-buffer free, and a host that wants to reuse the memory
    /// (say, once per rendering frame) drops all its addresses together.
    pub fn reset(&mut self)
        requires
            old(self).wf(),
        ensures
            final(self).wf(),
            final(self)@ =~= old(self)@.subrange(0, 1),
    {
        self.bytes.truncate(1);
    }

    /// Reserves `size` fresh bytes at the end of the linear memory and
    /// returns their start address. Contents of the new region are
    /// unspecified: callers must not assume zeroed memory. Nothing is ever
    /// reclaimed, so the region overlaps no earlier reservation.
    pub fn reserve(&mut self, size: usize) -> (addr: usize)
        requires
            old(self).wf(),
            old(self)@.len() + size <= usize::MAX,
        ensures
            final(self).wf(),
            reserve_post(old(self)@, final(self)@, size as int, addr as int),
            addr != 0,
    {
        let addr = self.bytes.len();
        let mut grown: usize = 0;
        while grown < size
            invariant
                grown <= size,
                addr == old(self)@.len(),
                self.bytes@.len() == addr + grown,
                forall|j: int| 0 <= j < addr ==> self.bytes@[j] == old(self)@[j],
            decreases size - grown,
        {
            self.bytes.push(0);
            grown = grown + 1;
        }
        addr
    }

    /// Writes one byte, as the host does when it fills a buffer.
    pub fn store(&mut self, addr: usize, b: u8)
        requires
            addr < old(self)@.len(),
        ensures
            final(self)@ == old(self)@.update(addr as int, b),
    {
        self.bytes[addr] = b;
    }

    /// Folds the occluder buffer's alpha channel into the target buffer's
    /// alpha channel, in place: for each alpha byte (offset 3, 7, 11, ...
    /// below `len`), `target_alpha` becomes
    /// `floor(target_alpha * (255 - occluder_alpha) / 255)`. Color channels
    /// and all occluder bytes are untouched, as is a trailing partial pixel.
    /// A null (zero) address makes the whole call a silent no-op.
    pub fn alpha_composite_inplace(&mut self, target: usize, occluder: usize, len: usize)
        requires
            target != 0 && occluder != 0 ==> {
                &&& target + len <= old(self)@.len()
                &&& occluder + len <= old(self)@.len()
                &&& (target + len <= occluder || occluder + len <= target)
            },
        ensures
            final(self)@ == composite_spec(old(self)@, target as int, occluder as int, len as int),
    {
        if target == 0 || occluder == 0 {
            return;
        }
        let ghost pre = self@;
        let total = self.bytes.len();
        let mut i: usize = 3;
        while i < len
            invariant
                i % 4 == 3,
                target != 0,
                occluder != 0,
                pre.len() == total,
                target + len <= pre.len(),
                occluder + len <= pre.len(),
                target + len <= occluder || occluder + len <= target,
                self.bytes@.len() == pre.len(),
                forall|j: int| #![trigger pre[j]]
                    0 <= j < pre.len() ==> self.bytes@[j] == (
                    if is_processed_alpha(j, target as int, len as int) && j - target < i {
                        occluded_alpha(pre[j], pre[occluder + (j - target)])
                    } else {
                        pre[j]
                    }),
            decreases len + 4 - i,
        {
            let ghost before = self.bytes@;
            let ti = target + i;
            let oi = occluder + i;
            let ta = self.bytes[ti];
            let oa = self.bytes[oi];
            let na = blend_alpha(ta, oa);
            self.bytes[ti] = na;
            proof {
                assert(ta == pre[ti as int]);
                assert(oa == pre[oi as int]);
                assert forall|j: int| 0 <= j < pre.len() implies self.bytes@[j] == (
                    if is_processed_alpha(j, target as int, len as int) && j - target < i + 4 {
                        occluded_alpha(pre[j], pre[occluder + (j - target)])
                    } else {
                        pre[j]
                    }) by {
                    if j == ti as int {
                        assert(self.bytes@[j] == occluded_alpha(pre[j], pre[occluder + (j - target)]));
                    } else {
                        assert(self.bytes@[j] == before[j]);
                        if is_processed_alpha(j, target as int, len as int) && i <= j - target < i + 4 {
                            // within one pixel stride only offset `i` itself is 3 mod 4
                            assert(j - target == i);
                        }
                    }
                }
            }
            i = i + 4;
        }
        proof {
            assert(self@ =~= composite_spec(pre, target as int, occluder as int, len as int));
        }
    }
}

} // verus!
