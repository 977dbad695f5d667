use vstd::prelude::*;
use vstd::rwlock::{RwLock, RwLockPredicate};
use std::sync::Arc;
use std::sync::atomic::{AtomicUsize, Ordering};
use crate::{ByteRepr, FixBufferedAllocator, Layout, Region};

verus! {

/// What the lock keeps true of the arena it guards: the cursor stays within the buffer.
pub struct ArenaWf;

impl RwLockPredicate<FixBufferedAllocator> for ArenaWf {
    open spec fn inv(self, v: FixBufferedAllocator) -> bool {
        v.wf()
    }
}

/// A bump allocator that may be shared between threads. The arena sits behind a lock that is
/// held only while the cursor moves; the live-count is an atomic counter shared with every
/// handle. Restarting, rebinding and reclaiming take the lock first and test the count under
/// it, so that no allocation can slip in between the test and the change.
pub struct RestartableFBA {
    alloc: RwLock<FixBufferedAllocator, ArenaWf>,
    counter: Arc<AtomicUsize>,
}

/// A handle on a block of a shared `RestartableFBA`. It holds the live-count it adds to, and
/// takes its contribution back out with `release`.
pub struct AllocatedRef<T> {
    region: Region<T>,
    counter: Arc<AtomicUsize>,
}

impl<T: ByteRepr> AllocatedRef<T> {
    /// The block the handle reserves.
    pub closed spec fn span(&self) -> Region<T> {
        self.region
    }

    pub fn region(&self) -> (r: &Region<T>)
        ensures
            *r == self.span(),
    {
        &self.region
    }

    /// Gives the handle up, taking one off the live-count. Returns `false`, and leaves the count
    /// alone, where the count was already zero: that cannot happen while the coordinator
    /// counts right, and a caller should treat it as fatal.
    pub fn release(self) -> (r: bool) {
        if self.counter.load(Ordering::Relaxed) >= 1 {
            self.counter.fetch_sub(1, Ordering::Relaxed);
            true
        } else {
            false
        }
    }
}

impl RestartableFBA {
    /// A shared coordinator over `buf`, with the cursor at its start and no live handle.
    pub fn new(buf: Vec<u8>) -> (r: Self) {
        let arena = FixBufferedAllocator::new(buf);
        RestartableFBA {
            alloc: RwLock::new(arena, Ghost(ArenaWf)),
            counter: Arc::new(AtomicUsize::new(0)),
        }
    }

    /// A new handle on `region`, counted as live. Called with the lock held.
    fn hand_out<T: ByteRepr>(&self, region: Region<T>) -> (r: AllocatedRef<T>)
        ensures
            r.span() == region,
    {
        self.counter.fetch_add(1, Ordering::Relaxed);
        AllocatedRef { region, counter: self.counter.clone() }
    }

    /// Reserves a block of `layout` bytes at a multiple of its alignment; `None` where it does
    /// not fit after the blocks already handed out.
    pub fn allocate(&self, layout: Layout) -> (r: Option<AllocatedRef<u8>>)
        requires
            layout.wf(),
        ensures
            r matches Some(h) ==> h.span().count() == layout.size
                && h.span().start() % (layout.align as nat) == 0,
    {
        let (mut arena, guard) = self.alloc.acquire_write();
        let r = match arena.allocate(layout) {
            Some(region) => Some(self.hand_out(region)),
            None => None,
        };
        guard.release_write(arena);
        r
    }

    /// Reserves a run of `length` values of type `T`.
    pub fn alloc_slice<T: ByteRepr>(&self, length: usize) -> (r: Option<AllocatedRef<T>>)
        ensures
            r matches Some(h) ==> h.span().count() == length
                && h.span().start() % T::byte_align() == 0,
    {
        let (mut arena, guard) = self.alloc.acquire_write();
        let r = match arena.alloc_slice::<T>(length) {
            Some(region) => Some(self.hand_out(region)),
            None => None,
        };
        guard.release_write(arena);
        r
    }

    /// Places `value` in a new block; where it does not fit, hands it back.
    pub fn create<T: ByteRepr>(&self, value: T) -> (r: Result<AllocatedRef<T>, T>)
        ensures
            r matches Ok(h) ==> h.span().count() == 1 && h.span().start() % T::byte_align() == 0,
            r matches Err(v) ==> v == value,
    {
        let (mut arena, guard) = self.alloc.acquire_write();
        let r = match arena.create(value) {
            Ok(region) => Ok(self.hand_out(region)),
            Err(v) => Err(v),
        };
        guard.release_write(arena);
        r
    }

    /// Moves the cursor back to the start where no handle is live, as seen under the lock;
    /// `None` otherwise.
    pub fn try_restard(&self) -> (r: Option<()>) {
        let (mut arena, guard) = self.alloc.acquire_write();
        let live = self.counter.load(Ordering::Relaxed);
        let r = arena.restart_if_idle(live);
        guard.release_write(arena);
        r
    }

    /// Swaps in `buf` where no handle is live, as seen under the lock, and hands back the buffer
    /// used so far; otherwise hands `buf` back.
    pub fn try_new_buffer(&self, buf: Vec<u8>) -> (r: Result<Vec<u8>, Vec<u8>>)
        ensures
            r matches Err(back) ==> back@ == buf@,
    {
        let (mut arena, guard) = self.alloc.acquire_write();
        let live = self.counter.load(Ordering::Relaxed);
        let r = arena.rebind_if_idle(live, buf);
        guard.release_write(arena);
        r
    }

    /// Where no handle is live, as seen under the lock, moves the cursor to the start and hands
    /// out the whole buffer as one block, counted as live until released.
    pub fn get_buf(&self) -> (r: Option<AllocatedRef<u8>>)
        ensures
            r matches Some(h) ==> h.span().start() == 0,
    {
        let (mut arena, guard) = self.alloc.acquire_write();
        let live = self.counter.load(Ordering::Relaxed);
        let r = match arena.reclaim_if_idle(live) {
            Some(region) => Some(self.hand_out(region)),
            None => None,
        };
        guard.release_write(arena);
        r
    }

    /// The bytes that a handle's block spans, or `None` where the block is not within the
    /// current buffer.
    pub fn contents<T: ByteRepr>(&self, handle: &AllocatedRef<T>) -> (r: Option<Vec<u8>>) {
        let guard = self.alloc.acquire_read();
        let arena = guard.borrow();
        let r = if arena.holds(&handle.region) {
            Some(arena.contents(&handle.region))
        } else {
            None
        };
        guard.release_read();
        r
    }

    /// The `index`-th value of a handle's block, or `None` where it is not within the current
    /// buffer.
    pub fn get<T: ByteRepr>(&self, handle: &AllocatedRef<T>, index: usize) -> (r: Option<T>)
        ensures
            r is Some ==> index < handle.span().count(),
    {
        let guard = self.alloc.acquire_read();
        let arena = guard.borrow();
        let r = if index < handle.region.len() && arena.holds(&handle.region) {
            Some(arena.read(&handle.region, index))
        } else {
            None
        };
        guard.release_read();
        r
    }

    /// Stores `value` as the `index`-th value of a handle's block. Returns `false`, with nothing
    /// stored, where that value is not within the current buffer.
    pub fn set<T: ByteRepr>(&self, handle: &AllocatedRef<T>, index: usize, value: T) -> (r: bool)
        ensures
            r ==> index < handle.span().count(),
    {
        let (mut arena, guard) = self.alloc.acquire_write();
        let r = if index < handle.region.len() && arena.holds(&handle.region) {
            arena.write(&handle.region, index, value);
            true
        } else {
            false
        };
        guard.release_write(arena);
        r
    }
}

} // verus!
