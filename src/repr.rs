use vstd::prelude::*;
use crate::layout::Layout;

verus! {

/// A value that can be stored in an arena as a fixed number of bytes and read back.
pub trait ByteRepr: Sized {
    /// The number of bytes that every value of the type takes.
    spec fn byte_len() -> nat;

    /// Alignment at which values of the type are placed.
    spec fn byte_align() -> nat;

    /// The bytes that stand for `self`.
    spec fn encode(&self) -> Seq<u8>;

    /// The value that `b` stands for.
    spec fn decode(b: Seq<u8>) -> Self;

    proof fn lemma_encode(v: Self)
        ensures
            v.encode().len() == Self::byte_len(),
            Self::decode(v.encode()) == v,
    ;

    fn layout() -> (r: Layout)
        ensures
            r.size == Self::byte_len(),
            r.align == Self::byte_align(),
            r.wf(),
    ;

    fn to_bytes(&self) -> (r: Vec<u8>)
        ensures
            r@ == self.encode(),
    ;

    fn from_bytes(b: &[u8]) -> (r: Self)
        requires
            b@.len() == Self::byte_len(),
        ensures
            r == Self::decode(b@),
    ;
}

impl ByteRepr for u8 {
    open spec fn byte_len() -> nat {
        1
    }

    open spec fn byte_align() -> nat {
        vstd::layout::align_of::<u8>()
    }

    open spec fn encode(&self) -> Seq<u8> {
        seq![*self]
    }

    open spec fn decode(b: Seq<u8>) -> u8 {
        b[0]
    }

    proof fn lemma_encode(v: u8) {
    }

    fn layout() -> (r: Layout) {
        broadcast use vstd::layout::layout_of_primitives;
        Layout::new::<u8>()
    }

    fn to_bytes(&self) -> (r: Vec<u8>) {
        vec![*self]
    }

    fn from_bytes(b: &[u8]) -> (r: u8) {
        b[0]
    }
}

impl ByteRepr for u16 {
    open spec fn byte_len() -> nat {
        2
    }

    open spec fn byte_align() -> nat {
        vstd::layout::align_of::<u16>()
    }

    open spec fn encode(&self) -> Seq<u8> {
        seq![(*self & 0xff) as u8, (*self >> 8u16) as u8]
    }

    open spec fn decode(b: Seq<u8>) -> u16 {
        (b[0] as u16) | ((b[1] as u16) << 8u16)
    }

    proof fn lemma_encode(v: u16) {
        let b0 = (v & 0xff) as u8;
        let b1 = (v >> 8u16) as u8;
        assert((b0 as u16) | ((b1 as u16) << 8u16) == v) by (bit_vector)
            requires
                b0 == (v & 0xff) as u8,
                b1 == (v >> 8u16) as u8,
        ;
    }

    fn layout() -> (r: Layout) {
        broadcast use vstd::layout::layout_of_primitives;
        Layout::new::<u16>()
    }

    fn to_bytes(&self) -> (r: Vec<u8>) {
        vec![(*self & 0xff) as u8, (*self >> 8u16) as u8]
    }

    fn from_bytes(b: &[u8]) -> (r: u16) {
        (b[0] as u16) | ((b[1] as u16) << 8u16)
    }
}

impl ByteRepr for u32 {
    open spec fn byte_len() -> nat {
        4
    }

    open spec fn byte_align() -> nat {
        vstd::layout::align_of::<u32>()
    }

    open spec fn encode(&self) -> Seq<u8> {
        seq![(*self & 0xff) as u8, ((*self >> 8u32) & 0xff) as u8, ((*self >> 16u32) & 0xff) as u8, ((*self >> 24u32) & 0xff) as u8]
    }

    open spec fn decode(b: Seq<u8>) -> u32 {
        (b[0] as u32) | ((b[1] as u32) << 8u32) | ((b[2] as u32) << 16u32) | ((b[3] as u32) << 24u32)
    }

    proof fn lemma_encode(v: u32) {
        let b0 = ((v) & 0xff) as u8;
        let b1 = ((v >> 8u32) & 0xff) as u8;
        let b2 = ((v >> 16u32) & 0xff) as u8;
        let b3 = ((v >> 24u32) & 0xff) as u8;
        assert((b0 as u32) | ((b1 as u32) << 8u32) | ((b2 as u32) << 16u32) | ((b3 as u32) << 24u32) == v) by (bit_vector)
            requires
                b0 == ((v) & 0xff) as u8,
                b1 == ((v >> 8u32) & 0xff) as u8,
                b2 == ((v >> 16u32) & 0xff) as u8,
                b3 == ((v >> 24u32) & 0xff) as u8,
        ;
    }

    fn layout() -> (r: Layout) {
        broadcast use vstd::layout::layout_of_primitives;
        Layout::new::<u32>()
    }

    fn to_bytes(&self) -> (r: Vec<u8>) {
        vec![(*self & 0xff) as u8, ((*self >> 8u32) & 0xff) as u8, ((*self >> 16u32) & 0xff) as u8, ((*self >> 24u32) & 0xff) as u8]
    }

    fn from_bytes(b: &[u8]) -> (r: u32) {
        (b[0] as u32) | ((b[1] as u32) << 8u32) | ((b[2] as u32) << 16u32) | ((b[3] as u32) << 24u32)
    }
}

impl ByteRepr for u64 {
    open spec fn byte_len() -> nat {
        8
    }

    open spec fn byte_align() -> nat {
        vstd::layout::align_of::<u64>()
    }

    open spec fn encode(&self) -> Seq<u8> {
        seq![(*self & 0xff) as u8, ((*self >> 8u64) & 0xff) as u8, ((*self >> 16u64) & 0xff) as u8, ((*self >> 24u64) & 0xff) as u8, ((*self >> 32u64) & 0xff) as u8, ((*self >> 40u64) & 0xff) as u8, ((*self >> 48u64) & 0xff) as u8, ((*self >> 56u64) & 0xff) as u8]
    }

    open spec fn decode(b: Seq<u8>) -> u64 {
        (b[0] as u64) | ((b[1] as u64) << 8u64) | ((b[2] as u64) << 16u64) | ((b[3] as u64) << 24u64) | ((b[4] as u64) << 32u64) | ((b[5] as u64) << 40u64) | ((b[6] as u64) << 48u64) | ((b[7] as u64) << 56u64)
    }

    proof fn lemma_encode(v: u64) {
        let b0 = ((v) & 0xff) as u8;
        let b1 = ((v >> 8u64) & 0xff) as u8;
        let b2 = ((v >> 16u64) & 0xff) as u8;
        let b3 = ((v >> 24u64) & 0xff) as u8;
        let b4 = ((v >> 32u64) & 0xff) as u8;
        let b5 = ((v >> 40u64) & 0xff) as u8;
        let b6 = ((v >> 48u64) & 0xff) as u8;
        let b7 = ((v >> 56u64) & 0xff) as u8;
        assert((b0 as u64) | ((b1 as u64) << 8u64) | ((b2 as u64) << 16u64) | ((b3 as u64) << 24u64) | ((b4 as u64) << 32u64) | ((b5 as u64) << 40u64) | ((b6 as u64) << 48u64) | ((b7 as u64) << 56u64) == v) by (bit_vector)
            requires
                b0 == ((v) & 0xff) as u8,
                b1 == ((v >> 8u64) & 0xff) as u8,
                b2 == ((v >> 16u64) & 0xff) as u8,
                b3 == ((v >> 24u64) & 0xff) as u8,
                b4 == ((v >> 32u64) & 0xff) as u8,
                b5 == ((v >> 40u64) & 0xff) as u8,
                b6 == ((v >> 48u64) & 0xff) as u8,
                b7 == ((v >> 56u64) & 0xff) as u8,
        ;
    }

    fn layout() -> (r: Layout) {
        broadcast use vstd::layout::layout_of_primitives;
        Layout::new::<u64>()
    }

    fn to_bytes(&self) -> (r: Vec<u8>) {
        vec![(*self & 0xff) as u8, ((*self >> 8u64) & 0xff) as u8, ((*self >> 16u64) & 0xff) as u8, ((*self >> 24u64) & 0xff) as u8, ((*self >> 32u64) & 0xff) as u8, ((*self >> 40u64) & 0xff) as u8, ((*self >> 48u64) & 0xff) as u8, ((*self >> 56u64) & 0xff) as u8]
    }

    fn from_bytes(b: &[u8]) -> (r: u64) {
        (b[0] as u64) | ((b[1] as u64) << 8u64) | ((b[2] as u64) << 16u64) | ((b[3] as u64) << 24u64) | ((b[4] as u64) << 32u64) | ((b[5] as u64) << 40u64) | ((b[6] as u64) << 48u64) | ((b[7] as u64) << 56u64)
    }
}

impl ByteRepr for i32 {
    open spec fn byte_len() -> nat {
        4
    }

    open spec fn byte_align() -> nat {
        vstd::layout::align_of::<i32>()
    }

    /// The two's complement bits, as those of a `u32`.
    open spec fn encode(&self) -> Seq<u8> {
        (*self as u32).encode()
    }

    open spec fn decode(b: Seq<u8>) -> i32 {
        u32::decode(b) as i32
    }

    proof fn lemma_encode(v: i32) {
        u32::lemma_encode(v as u32);
        assert((v as u32) as i32 == v) by (bit_vector);
    }

    fn layout() -> (r: Layout) {
        broadcast use vstd::layout::layout_of_primitives;
        Layout::new::<i32>()
    }

    fn to_bytes(&self) -> (r: Vec<u8>) {
        (*self as u32).to_bytes()
    }

    fn from_bytes(b: &[u8]) -> (r: i32) {
        u32::from_bytes(b) as i32
    }
}

/// Four `u16` values, one after the other.
impl ByteRepr for [u16; 4] {
    open spec fn byte_len() -> nat {
        8
    }

    open spec fn byte_align() -> nat {
        vstd::layout::align_of::<u16>()
    }

    open spec fn encode(&self) -> Seq<u8> {
        self[0].encode() + self[1].encode() + self[2].encode() + self[3].encode()
    }

    open spec fn decode(b: Seq<u8>) -> [u16; 4] {
        [
            u16::decode(b.subrange(0, 2)),
            u16::decode(b.subrange(2, 4)),
            u16::decode(b.subrange(4, 6)),
            u16::decode(b.subrange(6, 8)),
        ]
    }

    proof fn lemma_encode(v: [u16; 4]) {
        broadcast use vstd::array::group_array_axioms;
        let e = v.encode();
        u16::lemma_encode(v[0]);
        u16::lemma_encode(v[1]);
        u16::lemma_encode(v[2]);
        u16::lemma_encode(v[3]);
        assert(e.subrange(0, 2) =~= v[0].encode());
        assert(e.subrange(2, 4) =~= v[1].encode());
        assert(e.subrange(4, 6) =~= v[2].encode());
        assert(e.subrange(6, 8) =~= v[3].encode());
        let d = <[u16; 4]>::decode(e);
        assert(d@ =~= v@);
    }

    fn layout() -> (r: Layout) {
        let elem = Layout::new::<u16>();
        broadcast use vstd::layout::layout_of_primitives;
        Layout { size: 8, align: elem.align }
    }

    fn to_bytes(&self) -> (r: Vec<u8>) {
        let mut r = self[0].to_bytes();
        let mut b1 = self[1].to_bytes();
        let mut b2 = self[2].to_bytes();
        let mut b3 = self[3].to_bytes();
        r.append(&mut b1);
        r.append(&mut b2);
        r.append(&mut b3);
        r
    }

    fn from_bytes(b: &[u8]) -> (r: [u16; 4]) {
        let x0 = (b[0] as u16) | ((b[1] as u16) << 8u16);
        let x1 = (b[2] as u16) | ((b[3] as u16) << 8u16);
        let x2 = (b[4] as u16) | ((b[5] as u16) << 8u16);
        let x3 = (b[6] as u16) | ((b[7] as u16) << 8u16);
        [x0, x1, x2, x3]
    }
}

} // verus!
