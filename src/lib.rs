use vstd::prelude::*;

pub mod layout;
pub mod repr;
pub mod laws;
pub mod sync;

pub use layout::Layout;
pub use repr::ByteRepr;

use core::marker::PhantomData;
use layout::{is_power_of_two, padding_for};

verus! {

/// Where a block aligned to `align` starts when the cursor stands at `offset`.
pub open spec fn placement(offset: nat, align: nat) -> int {
    offset + padding_for(offset as int, align as int)
}

/// A block of `size` bytes at `align` fits after `offset` in `capacity` bytes.
pub open spec fn fits(offset: nat, capacity: nat, size: nat, align: nat) -> bool {
    placement(offset, align) + size <= capacity
}

/// `s` with the bytes from `at` on replaced by `b`.
pub open spec fn splice(s: Seq<u8>, at: int, b: Seq<u8>) -> Seq<u8> {
    Seq::new(s.len(), |k: int| if at <= k < at + b.len() { b[k - at] } else { s[k] })
}

/// A run of `count` values of type `T` placed in an arena, starting at byte `start`.
pub struct Region<T> {
    start: usize,
    count: usize,
    elem: PhantomData<T>,
}

impl<T: ByteRepr> Region<T> {
    pub closed spec fn start(&self) -> nat {
        self.start as nat
    }

    pub closed spec fn count(&self) -> nat {
        self.count as nat
    }

    /// The number of bytes the region spans.
    pub open spec fn byte_len(&self) -> nat {
        self.count() * T::byte_len()
    }

    /// One past the last byte of the region.
    pub open spec fn end(&self) -> nat {
        self.start() + self.byte_len()
    }

    /// The first byte of the `index`-th value.
    pub open spec fn elem_start(&self, index: int) -> int {
        self.start() + index * T::byte_len()
    }

    pub fn start_offset(&self) -> (r: usize)
        ensures
            r == self.start(),
    {
        self.start
    }

    pub fn len(&self) -> (r: usize)
        ensures
            r == self.count(),
    {
        self.count
    }
}

/// A bump allocator over one owned byte buffer: each block is placed after the previous one.
pub struct FixBufferedAllocator {
    buf: Vec<u8>,
    offset: usize,
}

impl FixBufferedAllocator {
    /// The buffer's bytes.
    pub closed spec fn bytes(&self) -> Seq<u8> {
        self.buf@
    }

    /// The cursor: the first byte that no block holds.
    pub closed spec fn cursor(&self) -> nat {
        self.offset as nat
    }

    pub open spec fn capacity(&self) -> nat {
        self.bytes().len()
    }

    pub open spec fn wf(&self) -> bool {
        self.cursor() <= self.capacity()
    }

    /// An arena over `buf`, with the cursor at its start.
    pub fn new(buf: Vec<u8>) -> (r: Self)
        ensures
            r.wf(),
            r.bytes() == buf@,
            r.cursor() == 0,
    {
        FixBufferedAllocator { buf, offset: 0 }
    }

    pub fn offset(&self) -> (r: usize)
        ensures
            r == self.cursor(),
    {
        self.offset
    }

    pub fn capacity_bytes(&self) -> (r: usize)
        ensures
            r == self.capacity(),
    {
        self.buf.len()
    }

    /// Bytes to skip from the cursor to reach a multiple of `align`.
    pub fn padding(&self, align: usize) -> (r: usize)
        requires
            is_power_of_two(align),
        ensures
            r == padding_for(self.cursor() as int, align as int),
            r < align,
    {
        let rem = self.offset % align;
        proof {
            vstd::arithmetic::div_mod::lemma_mod_self_0(align as int);
            if rem != 0 {
                vstd::arithmetic::div_mod::lemma_small_mod((align - rem) as nat, align as nat);
            }
        }
        if rem == 0 {
            0
        } else {
            align - rem
        }
    }

    /// Places a block of `layout` after the cursor and returns where it starts; `None`, with
    /// the arena unchanged, where it does not fit.
    pub fn alloc_raw(&mut self, layout: Layout) -> (r: Option<usize>)
        requires
            old(self).wf(),
            layout.wf(),
        ensures
            final(self).wf(),
            final(self).bytes() == old(self).bytes(),
            r is Some <==> fits(old(self).cursor(), old(self).capacity(), layout.size as nat, layout.align as nat),
            r matches Some(start) ==> start == placement(old(self).cursor(), layout.align as nat)
                && start % layout.align == 0 && final(self).cursor() == start + layout.size,
            r is None ==> final(self).cursor() == old(self).cursor(),
    {
        let capacity = self.buf.len();
        let pad = self.padding(layout.align);
        proof {
            laws::lemma_placement_aligned(self.offset as nat, layout.align);
        }
        let aligned = match self.offset.checked_add(pad) {
            Some(a) => a,
            None => return None,
        };
        let end = match aligned.checked_add(layout.size) {
            Some(e) => e,
            None => return None,
        };
        if end > capacity {
            return None;
        }
        self.offset = end;
        Some(aligned)
    }

    /// Places a block of `layout` and returns it as a run of bytes.
    pub fn allocate(&mut self, layout: Layout) -> (r: Option<Region<u8>>)
        requires
            old(self).wf(),
            layout.wf(),
        ensures
            final(self).wf(),
            final(self).bytes() == old(self).bytes(),
            r is Some <==> fits(old(self).cursor(), old(self).capacity(), layout.size as nat, layout.align as nat),
            r matches Some(reg) ==> reg.start() == placement(old(self).cursor(), layout.align as nat)
                && reg.start() % (layout.align as nat) == 0 && reg.count() == layout.size && final(self).cursor() == reg.end(),
            r is None ==> final(self).cursor() == old(self).cursor(),
    {
        match self.alloc_raw(layout) {
            Some(start) => Some(Region { start, count: layout.size, elem: PhantomData }),
            None => None,
        }
    }

    /// Places a run of `length` values of type `T`; the bytes it spans are left as they were.
    pub fn alloc_slice<T: ByteRepr>(&mut self, length: usize) -> (r: Option<Region<T>>)
        requires
            old(self).wf(),
        ensures
            final(self).wf(),
            final(self).bytes() == old(self).bytes(),
            r is Some <==> fits(old(self).cursor(), old(self).capacity(), (length * T::byte_len()) as nat, T::byte_align()),
            r matches Some(reg) ==> reg.start() == placement(old(self).cursor(), T::byte_align())
                && reg.start() % T::byte_align() == 0 && old(self).cursor() <= reg.start()
                && reg.count() == length && final(self).cursor() == reg.end(),
            r is None ==> final(self).cursor() == old(self).cursor(),
    {
        let capacity = self.buf.len();
        let elem = T::layout();
        let size = match elem.size.checked_mul(length) {
            Some(s) => s,
            None => {
                proof {
                    assert(length * T::byte_len() == elem.size * length) by (nonlinear_arith)
                        requires elem.size == T::byte_len();
                    assert(self.capacity() == capacity);
                }
                return None;
            },
        };
        proof {
            assert(length * T::byte_len() == elem.size * length) by (nonlinear_arith)
                requires elem.size == T::byte_len();
        }
        proof {
            laws::lemma_padding_bounds(self.cursor(), elem.align as nat);
        }
        match self.alloc_raw(Layout { size, align: elem.align }) {
            Some(start) => Some(Region { start, count: length, elem: PhantomData }),
            None => None,
        }
    }

    /// Places `value` after the cursor; where it does not fit, hands it back and leaves the
    /// arena unchanged.
    pub fn create<T: ByteRepr>(&mut self, value: T) -> (r: Result<Region<T>, T>)
        requires
            old(self).wf(),
        ensures
            final(self).wf(),
            r is Ok <==> fits(old(self).cursor(), old(self).capacity(), T::byte_len(), T::byte_align()),
            r matches Ok(reg) ==> reg.start() == placement(old(self).cursor(), T::byte_align())
                && reg.start() % T::byte_align() == 0 && old(self).cursor() <= reg.start()
                && reg.count() == 1 && final(self).cursor() == reg.end()
                && final(self).bytes() == splice(old(self).bytes(), reg.start() as int, value.encode()),
            r matches Err(v) ==> v == value && final(self).cursor() == old(self).cursor()
                && final(self).bytes() == old(self).bytes(),
    {
        let layout = T::layout();
        proof {
            laws::lemma_padding_bounds(self.cursor(), layout.align as nat);
        }
        match self.alloc_raw(layout) {
            Some(start) => {
                let bytes = value.to_bytes();
                proof {
                    T::lemma_encode(value);
                }
                self.write_bytes(start, &bytes);
                Ok(Region { start, count: 1, elem: PhantomData })
            },
            None => Err(value),
        }
    }

    /// Copies `b` into the buffer from byte `at` on.
    fn write_bytes(&mut self, at: usize, b: &Vec<u8>)
        requires
            old(self).wf(),
            at + b@.len() <= old(self).capacity(),
        ensures
            final(self).wf(),
            final(self).cursor() == old(self).cursor(),
            final(self).bytes() == splice(old(self).bytes(), at as int, b@),
    {
        let ghost before = self.buf@;
        let capacity = self.buf.len();
        let mut i: usize = 0;
        while i < b.len()
            invariant
                i <= b@.len(),
                at + b@.len() <= before.len(),
                capacity == before.len(),
                self.offset == old(self).offset,
                self.buf@ == splice(before, at as int, b@.take(i as int)),
                before == old(self).bytes(),
            decreases b@.len() - i,
        {
            self.buf.set(at + i, b[i]);
            i = i + 1;
            assert(self.buf@ =~= splice(before, at as int, b@.take(i as int)));
        }
        assert(b@.take(i as int) =~= b@);
    }

    /// A copy of the `n` bytes from `at` on.
    fn read_bytes(&self, at: usize, n: usize) -> (r: Vec<u8>)
        requires
            at + n <= self.capacity(),
        ensures
            r@ == self.bytes().subrange(at as int, at + n),
    {
        let capacity = self.buf.len();
        let mut r: Vec<u8> = Vec::new();
        let mut i: usize = 0;
        while i < n
            invariant
                i <= n,
                at + n <= self.buf@.len(),
                capacity == self.buf@.len(),
                r@ == self.buf@.subrange(at as int, at + i),
            decreases n - i,
        {
            r.push(self.buf[at + i]);
            i = i + 1;
            assert(r@ =~= self.buf@.subrange(at as int, at + i));
        }
        r
    }

    /// Moves the cursor back to the start where `live`, the number of blocks still in use, is
    /// zero; `None`, with nothing changed, otherwise.
    pub fn restart_if_idle(&mut self, live: usize) -> (r: Option<()>)
        requires
            old(self).wf(),
        ensures
            final(self).wf(),
            final(self).bytes() == old(self).bytes(),
            r is Some <==> live == 0,
            r is Some ==> final(self).cursor() == 0,
            r is None ==> final(self).cursor() == old(self).cursor(),
    {
        if live != 0 {
            None
        } else {
            self.offset = 0;
            Some(())
        }
    }

    /// Where `live` is zero, swaps in `buf` with the cursor at its start and hands back the
    /// buffer used so far; otherwise hands `buf` back with nothing changed.
    pub fn rebind_if_idle(&mut self, live: usize, buf: Vec<u8>) -> (r: Result<Vec<u8>, Vec<u8>>)
        requires
            old(self).wf(),
        ensures
            final(self).wf(),
            r is Ok <==> live == 0,
            r matches Ok(prev) ==> prev@ == old(self).bytes() && final(self).bytes() == buf@
                && final(self).cursor() == 0,
            r matches Err(back) ==> back@ == buf@ && final(self).bytes() == old(self).bytes()
                && final(self).cursor() == old(self).cursor(),
    {
        if live != 0 {
            Err(buf)
        } else {
            let mut prev = buf;
            core::mem::swap(&mut self.buf, &mut prev);
            self.offset = 0;
            Ok(prev)
        }
    }

    /// Where `live` is zero, moves the cursor to the start and hands out the whole buffer as
    /// one block; otherwise `None`, with nothing changed.
    pub fn reclaim_if_idle(&mut self, live: usize) -> (r: Option<Region<u8>>)
        requires
            old(self).wf(),
        ensures
            final(self).wf(),
            final(self).bytes() == old(self).bytes(),
            r is Some <==> live == 0,
            r matches Some(reg) ==> reg.start() == 0 && reg.count() == old(self).capacity()
                && final(self).cursor() == old(self).capacity(),
            r is None ==> final(self).cursor() == old(self).cursor(),
    {
        if live != 0 {
            return None;
        }
        let length = self.buf.len();
        self.offset = 0;
        proof {
            vstd::arithmetic::div_mod::lemma_mod_self_0(vstd::layout::align_of::<u8>() as int);
        }
        self.alloc_slice::<u8>(length)
    }

    /// Whether `reg` lies within the buffer.
    pub fn holds<T: ByteRepr>(&self, reg: &Region<T>) -> (r: bool)
        ensures
            r == (reg.end() <= self.capacity()),
    {
        let capacity = self.buf.len();
        let size = T::layout().size;
        match reg.count.checked_mul(size) {
            Some(n) => {
                proof {
                    assert(reg.count * size == reg.byte_len());
                }
                match reg.start.checked_add(n) {
                    Some(end) => end <= capacity,
                    None => false,
                }
            },
            None => {
                proof {
                    assert(reg.count * size == reg.byte_len());
                }
                false
            },
        }
    }

    /// A copy of the bytes that `reg` spans.
    pub fn contents<T: ByteRepr>(&self, reg: &Region<T>) -> (r: Vec<u8>)
        requires
            reg.end() <= self.capacity(),
        ensures
            r@ == self.bytes().subrange(reg.start() as int, reg.end() as int),
    {
        let capacity = self.buf.len();
        let size = T::layout().size;
        proof {
            assert(reg.count * size == reg.byte_len());
            assert(reg.end() <= capacity);
        }
        self.read_bytes(reg.start, reg.count * size)
    }

    /// The `index`-th value of `reg`, decoded from the bytes it spans.
    pub fn read<T: ByteRepr>(&self, reg: &Region<T>, index: usize) -> (v: T)
        requires
            self.wf(),
            reg.end() <= self.capacity(),
            index < reg.count(),
        ensures
            v == T::decode(self.bytes().subrange(reg.elem_start(index as int), reg.elem_start(index as int) + T::byte_len())),
    {
        let capacity = self.buf.len();
        let size = T::layout().size;
        proof {
            assert(reg.end() <= capacity);
            lemma_elem_in_region(reg.count(), index as nat, size as nat);
        }
        let at = reg.start + index * size;
        let bytes = self.read_bytes(at, size);
        T::from_bytes(bytes.as_slice())
    }

    /// Stores `value` as the `index`-th value of `reg`.
    pub fn write<T: ByteRepr>(&mut self, reg: &Region<T>, index: usize, value: T)
        requires
            old(self).wf(),
            reg.end() <= old(self).capacity(),
            index < reg.count(),
        ensures
            final(self).wf(),
            final(self).cursor() == old(self).cursor(),
            final(self).bytes() == splice(old(self).bytes(), reg.elem_start(index as int), value.encode()),
    {
        let capacity = self.buf.len();
        let size = T::layout().size;
        proof {
            assert(reg.end() <= capacity);
            lemma_elem_in_region(reg.count(), index as nat, size as nat);
            T::lemma_encode(value);
        }
        let at = reg.start + index * size;
        let bytes = value.to_bytes();
        self.write_bytes(at, &bytes);
    }
}

/// A handle on a block of a `RestartableFBA`: the block stays reserved, and the arena cannot be
/// restarted, until the handle is given back with `release`.
pub struct AllocatedRef<T> {
    region: Region<T>,
    id: Ghost<nat>,
}

impl<T: ByteRepr> AllocatedRef<T> {
    /// The block the handle reserves.
    pub closed spec fn span(&self) -> Region<T> {
        self.region
    }

    /// The name under which the coordinator records the handle.
    pub closed spec fn id(&self) -> nat {
        self.id@
    }

    /// The bytes `[start, end)` that the handle reserves.
    pub open spec fn bounds(&self) -> (nat, nat) {
        (self.span().start(), self.span().end())
    }

    pub fn region(&self) -> (r: &Region<T>)
        ensures
            *r == self.span(),
    {
        &self.region
    }
}

/// A bump allocator that counts its live handles, and lets the buffer be reused or swapped
/// only when none is left.
pub struct RestartableFBA {
    alloc: FixBufferedAllocator,
    counter: usize,
    handles: Ghost<Map<nat, (nat, nat)>>,
    next_id: Ghost<nat>,
}

impl RestartableFBA {
    pub closed spec fn arena(&self) -> FixBufferedAllocator {
        self.alloc
    }

    /// The number of handles given out and not yet released.
    pub closed spec fn live(&self) -> nat {
        self.counter as nat
    }

    /// The live handles, each with the bytes `[start, end)` it reserves.
    pub closed spec fn handles(&self) -> Map<nat, (nat, nat)> {
        self.handles@
    }

    /// Every name given to a handle so far is below this one.
    pub closed spec fn next_id(&self) -> nat {
        self.next_id@
    }

    /// The cursor stays within the buffer; the live-count is the number of live handles; each
    /// live handle holds bytes below the cursor, and no two of them share a byte.
    pub open spec fn wf(&self) -> bool {
        &&& self.arena().wf()
        &&& self.handles().dom().finite()
        &&& self.live() == self.handles().len()
        &&& forall|id: nat| #[trigger] self.handles().contains_key(id) ==> id < self.next_id()
            && self.handles()[id].0 <= self.handles()[id].1 <= self.arena().cursor()
        &&& forall|i: nat, j: nat|
            #[trigger] self.handles().contains_key(i) && #[trigger] self.handles().contains_key(j)
                && i != j ==> self.handles()[i].1 <= self.handles()[j].0
                || self.handles()[j].1 <= self.handles()[i].0
    }

    /// `handle` was given out by this coordinator and not yet released.
    pub open spec fn is_live<T: ByteRepr>(&self, handle: &AllocatedRef<T>) -> bool {
        &&& self.handles().contains_key(handle.id())
        &&& self.handles()[handle.id()] == handle.bounds()
    }

    /// The arena and the live handles are as they were.
    pub open spec fn unchanged(&self, other: &RestartableFBA) -> bool {
        &&& self.arena().bytes() == other.arena().bytes()
        &&& self.arena().cursor() == other.arena().cursor()
        &&& self.live() == other.live()
        &&& self.handles() == other.handles()
    }

    /// A coordinator over `buf`, with the cursor at its start and no live handle.
    pub fn new(buf: Vec<u8>) -> (r: Self)
        ensures
            r.wf(),
            r.arena().bytes() == buf@,
            r.arena().cursor() == 0,
            r.live() == 0,
    {
        RestartableFBA {
            alloc: FixBufferedAllocator::new(buf),
            counter: 0,
            handles: Ghost(Map::empty()),
            next_id: Ghost(0),
        }
    }

    pub fn live_count(&self) -> (r: usize)
        ensures
            r == self.live(),
    {
        self.counter
    }

    pub fn offset(&self) -> (r: usize)
        ensures
            r == self.arena().cursor(),
    {
        self.alloc.offset()
    }

    /// Records a handle on `region`, which starts at or after the old cursor `from` and ends
    /// at the current one.
    fn hand_out<T: ByteRepr>(&mut self, region: Region<T>, Ghost(from): Ghost<nat>) -> (h: AllocatedRef<T>)
        requires
            old(self).handles().dom().finite(),
            old(self).live() == old(self).handles().len(),
            old(self).live() < usize::MAX,
            old(self).arena().wf(),
            forall|id: nat| #[trigger] old(self).handles().contains_key(id) ==> id < old(self).next_id()
                && old(self).handles()[id].0 <= old(self).handles()[id].1 <= from,
            forall|i: nat, j: nat|
                #[trigger] old(self).handles().contains_key(i) && #[trigger] old(self).handles().contains_key(j)
                    && i != j ==> old(self).handles()[i].1 <= old(self).handles()[j].0
                    || old(self).handles()[j].1 <= old(self).handles()[i].0,
            from <= region.start(),
            region.end() == old(self).arena().cursor(),
        ensures
            final(self).wf(),
            final(self).arena() == old(self).arena(),
            final(self).live() == old(self).live() + 1,
            final(self).handles() == old(self).handles().insert(h.id(), h.bounds()),
            !old(self).handles().contains_key(h.id()),
            h.span() == region,
            final(self).is_live(&h),
    {
        let ghost id = self.next_id@;
        self.counter = self.counter + 1;
        proof {
            self.handles@ = self.handles@.insert(id, (region.start(), region.end()));
            self.next_id@ = id + 1;
        }
        AllocatedRef { region, id: Ghost(id) }
    }

    /// Reserves a block of `layout` bytes; `None`, with nothing changed, where it does not fit.
    pub fn allocate(&mut self, layout: Layout) -> (r: Option<AllocatedRef<u8>>)
        requires
            old(self).wf(),
            layout.wf(),
            old(self).live() < usize::MAX,
        ensures
            final(self).wf(),
            final(self).arena().bytes() == old(self).arena().bytes(),
            r is Some <==> fits(old(self).arena().cursor(), old(self).arena().capacity(), layout.size as nat, layout.align as nat),
            r matches Some(h) ==> h.span().start() == placement(old(self).arena().cursor(), layout.align as nat)
                && h.span().start() % (layout.align as nat) == 0
                && h.span().count() == layout.size && final(self).arena().cursor() == h.span().end()
                && final(self).live() == old(self).live() + 1
                && !old(self).handles().contains_key(h.id())
                && final(self).handles() == old(self).handles().insert(h.id(), h.bounds()),
            r is None ==> final(self).unchanged(old(self)),
    {
        let ghost from = self.alloc.cursor();
        match self.alloc.allocate(layout) {
            Some(region) => Some(self.hand_out(region, Ghost(from))),
            None => None,
        }
    }

    /// Reserves a run of `length` values of type `T`.
    pub fn alloc_slice<T: ByteRepr>(&mut self, length: usize) -> (r: Option<AllocatedRef<T>>)
        requires
            old(self).wf(),
            old(self).live() < usize::MAX,
        ensures
            final(self).wf(),
            final(self).arena().bytes() == old(self).arena().bytes(),
            r is Some <==> fits(old(self).arena().cursor(), old(self).arena().capacity(), (length * T::byte_len()) as nat, T::byte_align()),
            r matches Some(h) ==> h.span().start() == placement(old(self).arena().cursor(), T::byte_align())
                && h.span().start() % T::byte_align() == 0
                && h.span().count() == length && final(self).arena().cursor() == h.span().end()
                && final(self).live() == old(self).live() + 1
                && !old(self).handles().contains_key(h.id())
                && final(self).handles() == old(self).handles().insert(h.id(), h.bounds()),
            r is None ==> final(self).unchanged(old(self)),
    {
        let ghost from = self.alloc.cursor();
        match self.alloc.alloc_slice::<T>(length) {
            Some(region) => Some(self.hand_out(region, Ghost(from))),
            None => None,
        }
    }

    /// Places `value` in a new block; where it does not fit, hands it back with nothing changed.
    pub fn create<T: ByteRepr>(&mut self, value: T) -> (r: Result<AllocatedRef<T>, T>)
        requires
            old(self).wf(),
            old(self).live() < usize::MAX,
        ensures
            final(self).wf(),
            r is Ok <==> fits(old(self).arena().cursor(), old(self).arena().capacity(), T::byte_len(), T::byte_align()),
            r matches Ok(h) ==> h.span().start() == placement(old(self).arena().cursor(), T::byte_align())
                && h.span().start() % T::byte_align() == 0
                && h.span().count() == 1 && final(self).arena().cursor() == h.span().end()
                && final(self).arena().bytes() == splice(old(self).arena().bytes(), h.span().start() as int, value.encode())
                && final(self).live() == old(self).live() + 1
                && !old(self).handles().contains_key(h.id())
                && final(self).handles() == old(self).handles().insert(h.id(), h.bounds()),
            r matches Err(v) ==> v == value && final(self).unchanged(old(self)),
    {
        let ghost from = self.alloc.cursor();
        match self.alloc.create(value) {
            Ok(region) => Ok(self.hand_out(region, Ghost(from))),
            Err(v) => Err(v),
        }
    }

    /// Gives a handle back: its block is no longer reserved.
    pub fn release<T: ByteRepr>(&mut self, handle: AllocatedRef<T>)
        requires
            old(self).wf(),
            old(self).is_live(&handle),
        ensures
            final(self).wf(),
            final(self).arena() == old(self).arena(),
            final(self).live() == old(self).live() - 1,
            final(self).handles() == old(self).handles().remove(handle.id()),
    {
        proof {
            assert(self.handles@.dom().contains(handle.id()));
            self.handles@ = self.handles@.remove(handle.id());
        }
        self.counter = self.counter - 1;
    }

    /// No handle is live, so the map of live handles is empty.
    proof fn lemma_idle_is_empty(&self)
        requires
            self.wf(),
            self.live() == 0,
        ensures
            self.handles() == Map::<nat, (nat, nat)>::empty(),
    {
        self.handles().dom().lemma_len0_is_empty();
        assert(self.handles() =~= Map::<nat, (nat, nat)>::empty());
    }

    /// Moves the cursor back to the start; the bytes stay as they are. Only allowed with no
    /// live handle.
    pub fn restart(&mut self)
        requires
            old(self).wf(),
            old(self).live() == 0,
        ensures
            final(self).wf(),
            final(self).arena().bytes() == old(self).arena().bytes(),
            final(self).arena().cursor() == 0,
            final(self).live() == 0,
    {
        proof {
            self.lemma_idle_is_empty();
        }
        self.alloc.restart_if_idle(0);
    }

    /// Moves the cursor back to the start where no handle is live; `None`, with nothing
    /// changed, where one is.
    pub fn try_restard(&mut self) -> (r: Option<()>)
        requires
            old(self).wf(),
        ensures
            final(self).wf(),
            r is Some <==> old(self).live() == 0,
            r is Some ==> final(self).arena().bytes() == old(self).arena().bytes()
                && final(self).arena().cursor() == 0 && final(self).live() == 0,
            r is None ==> final(self).unchanged(old(self)),
    {
        proof {
            if self.counter == 0 {
                self.lemma_idle_is_empty();
            }
        }
        self.alloc.restart_if_idle(self.counter)
    }

    /// Swaps in `buf` with the cursor at its start, and hands back the buffer used so far.
    /// Only allowed with no live handle.
    pub fn new_buffer(&mut self, buf: Vec<u8>) -> (r: Vec<u8>)
        requires
            old(self).wf(),
            old(self).live() == 0,
        ensures
            final(self).wf(),
            r@ == old(self).arena().bytes(),
            final(self).arena().bytes() == buf@,
            final(self).arena().cursor() == 0,
            final(self).live() == 0,
    {
        proof {
            self.lemma_idle_is_empty();
        }
        match self.alloc.rebind_if_idle(0, buf) {
            Ok(prev) => prev,
            Err(back) => back,
        }
    }

    /// Swaps in `buf` where no handle is live, and hands back the buffer used so far; where
    /// one is, hands `buf` back with nothing changed.
    pub fn try_new_buffer(&mut self, buf: Vec<u8>) -> (r: Result<Vec<u8>, Vec<u8>>)
        requires
            old(self).wf(),
        ensures
            final(self).wf(),
            r is Ok <==> old(self).live() == 0,
            r matches Ok(prev) ==> prev@ == old(self).arena().bytes()
                && final(self).arena().bytes() == buf@ && final(self).arena().cursor() == 0
                && final(self).live() == 0,
            r matches Err(back) ==> back@ == buf@ && final(self).unchanged(old(self)),
    {
        proof {
            if self.counter == 0 {
                self.lemma_idle_is_empty();
            }
        }
        self.alloc.rebind_if_idle(self.counter, buf)
    }

    /// Where no handle is live, moves the cursor to the start and hands out the whole buffer
    /// as one block, which counts as live until released.
    pub fn get_buf(&mut self) -> (r: Option<AllocatedRef<u8>>)
        requires
            old(self).wf(),
        ensures
            final(self).wf(),
            final(self).arena().bytes() == old(self).arena().bytes(),
            r is Some <==> old(self).live() == 0,
            r matches Some(h) ==> h.span().start() == 0 && h.span().count() == old(self).arena().capacity()
                && final(self).arena().cursor() == old(self).arena().capacity()
                && final(self).live() == 1 && final(self).is_live(&h),
            r is None ==> final(self).unchanged(old(self)),
    {
        if self.counter != 0 {
            return None;
        }
        proof {
            self.lemma_idle_is_empty();
        }
        match self.alloc.reclaim_if_idle(0) {
            Some(region) => Some(self.hand_out(region, Ghost(0))),
            None => None,
        }
    }

    /// The bytes that a live handle's block spans.
    pub fn contents<T: ByteRepr>(&self, handle: &AllocatedRef<T>) -> (r: Vec<u8>)
        requires
            self.wf(),
            self.is_live(handle),
        ensures
            r@ == self.arena().bytes().subrange(handle.span().start() as int, handle.span().end() as int),
    {
        self.alloc.contents(&handle.region)
    }

    /// The `index`-th value of a live handle's block.
    pub fn get<T: ByteRepr>(&self, handle: &AllocatedRef<T>, index: usize) -> (v: T)
        requires
            self.wf(),
            self.is_live(handle),
            index < handle.span().count(),
        ensures
            v == T::decode(self.arena().bytes().subrange(handle.span().elem_start(index as int), handle.span().elem_start(index as int) + T::byte_len())),
    {
        self.alloc.read(&handle.region, index)
    }

    /// Stores `value` as the `index`-th value of a live handle's block.
    pub fn set<T: ByteRepr>(&mut self, handle: &AllocatedRef<T>, index: usize, value: T)
        requires
            old(self).wf(),
            old(self).is_live(handle),
            index < handle.span().count(),
        ensures
            final(self).wf(),
            final(self).arena().cursor() == old(self).arena().cursor(),
            final(self).live() == old(self).live(),
            final(self).handles() == old(self).handles(),
            final(self).arena().bytes() == splice(old(self).arena().bytes(), handle.span().elem_start(index as int), value.encode()),
    {
        self.alloc.write(&handle.region, index, value);
    }
}

/// The `index`-th of `count` values of `size` bytes ends within the run.
proof fn lemma_elem_in_region(count: nat, index: nat, size: nat)
    requires
        index < count,
    ensures
        index * size + size <= count * size,
{
    assert(index * size + size <= count * size) by (nonlinear_arith)
        requires
            index < count,
    ;
}

} // verus!
