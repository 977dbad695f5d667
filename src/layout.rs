use vstd::prelude::*;
use vstd::arithmetic::power2::is_pow2;
use vstd::layout::{size_of, align_of};

verus! {

/// `a` is a power of two, stated on its bits: it is nonzero and shares no bit with `a - 1`.
pub open spec fn is_power_of_two(a: usize) -> bool {
    a != 0 && a & ((a - 1) as usize) == 0
}

/// Bytes that must be skipped from `offset` to reach the next multiple of `align`.
pub open spec fn padding_for(offset: int, align: int) -> int {
    (align - offset % align) % align
}

/// A power of two in the recursive sense of vstd has the single-bit shape.
pub proof fn lemma_pow2_single_bit(n: usize)
    requires
        is_pow2(n as int),
    ensures
        is_power_of_two(n),
    decreases n,
{
    reveal(is_pow2);
    if n != 1 {
        let m: usize = n / 2;
        lemma_pow2_single_bit(m);
        assert(n >> 1usize == n / 2 && n & 1 == n % 2) by (bit_vector);
        assert(n & 1 == 0 && m == n >> 1usize && m != 0 && m & ((m - 1) as usize) == 0 ==> n & ((n - 1) as usize) == 0) by (bit_vector);
    } else {
        assert(1usize & 0usize == 0) by (bit_vector);
    }
}

/// Size and alignment of a block of bytes to be placed in an arena.
#[derive(Clone, Copy, Debug, PartialEq, Eq)]
pub struct Layout {
    pub size: usize,
    pub align: usize,
}

impl Layout {
    /// A usable layout has a power-of-two alignment.
    pub open spec fn wf(&self) -> bool {
        is_power_of_two(self.align)
    }

    /// A layout of `size` bytes at `align`, or `None` where `align` is not a power of two.
    pub fn from_size_align(size: usize, align: usize) -> (r: Option<Layout>)
        ensures
            r is Some <==> is_power_of_two(align),
            r matches Some(l) ==> l.size == size && l.align == align && l.wf(),
    {
        if align != 0 && align & (align - 1) == 0 {
            Some(Layout { size, align })
        } else {
            None
        }
    }

    /// The layout of a value of type `T`.
    pub fn new<T>() -> (r: Layout)
        ensures
            r.size == size_of::<T>(),
            r.align == align_of::<T>(),
            r.wf(),
    {
        broadcast use vstd::layout::align_properties;
        vstd::layout::layout_for_type_is_valid::<T>();
        let size = core::mem::size_of::<T>();
        let align = core::mem::align_of::<T>();
        proof {
            lemma_pow2_single_bit(align);
        }
        Layout { size, align }
    }

    /// The layout of `count` consecutive values of type `T`, or `None` where the total size
    /// does not fit in a `usize`.
    pub fn array<T>(count: usize) -> (r: Option<Layout>)
        ensures
            r is Some <==> count * size_of::<T>() <= usize::MAX,
            r matches Some(l) ==> l.size == count * size_of::<T>() && l.align == align_of::<T>()
                && l.wf(),
    {
        let elem = Layout::new::<T>();
        match elem.size.checked_mul(count) {
            Some(size) => Some(Layout { size, align: elem.align }),
            None => None,
        }
    }
}

} // verus!
