use vstd::prelude::*;
use crate::layout::{is_power_of_two, padding_for};
use crate::{fits, placement, AllocatedRef, ByteRepr, RestartableFBA};

verus! {

/// The blocks that a run of requests `(size, align)` receives from an arena of `capacity`
/// bytes whose cursor stands at `cursor`: `Some((start, end))` for each request that fits,
/// `None` for each that does not.
pub open spec fn blocks(cursor: nat, capacity: nat, reqs: Seq<(nat, nat)>) -> Seq<Option<(int, int)>>
    decreases reqs.len(),
{
    if reqs.len() == 0 {
        seq![]
    } else {
        let size = reqs[0].0;
        let align = reqs[0].1;
        if fits(cursor, capacity, size, align) {
            let start = placement(cursor, align);
            seq![Some((start, start + size))] + blocks((start + size) as nat, capacity, reqs.skip(1))
        } else {
            seq![None] + blocks(cursor, capacity, reqs.skip(1))
        }
    }
}

/// Every alignment in the run is positive.
pub open spec fn aligns_ok(reqs: Seq<(nat, nat)>) -> bool {
    forall|i: int| 0 <= i < reqs.len() ==> reqs[i].1 > 0
}

/// The padding before a block is less than its alignment and not negative.
pub proof fn lemma_padding_bounds(offset: nat, align: nat)
    requires
        align > 0,
    ensures
        0 <= padding_for(offset as int, align as int) < align,
        offset <= placement(offset, align) < offset + align,
{
}

/// A block placed after the cursor starts at a multiple of its alignment.
pub proof fn lemma_placement_aligned(offset: nat, align: usize)
    requires
        is_power_of_two(align),
    ensures
        placement(offset, align as nat) % (align as int) == 0,
{
    let a = align as int;
    let rem = offset as int % a;
    vstd::arithmetic::div_mod::lemma_fundamental_div_mod(offset as int, a);
    let q = offset as int / a;
    if rem == 0 {
        vstd::arithmetic::div_mod::lemma_mod_self_0(a);
        assert(padding_for(offset as int, a) == 0);
        assert(placement(offset, align as nat) == offset);
        assert(offset as int % a == 0);
    } else {
        vstd::arithmetic::div_mod::lemma_small_mod((a - rem) as nat, a as nat);
        assert(placement(offset, align as nat) == (q + 1) * a) by (nonlinear_arith)
            requires
                offset == a * q + rem,
                placement(offset, align as nat) == offset + (a - rem),
        ;
        vstd::arithmetic::div_mod::lemma_mod_multiples_basic(q + 1, a);
    }
}

/// Two distinct live handles of one coordinator share no byte, and each lies within the part of
/// the buffer that the cursor has passed.
pub proof fn lemma_live_handles_disjoint<T: ByteRepr, U: ByteRepr>(
    c: &RestartableFBA,
    a: &AllocatedRef<T>,
    b: &AllocatedRef<U>,
)
    requires
        c.wf(),
        c.is_live(a),
        c.is_live(b),
        a.id() != b.id(),
    ensures
        a.span().end() <= b.span().start() || b.span().end() <= a.span().start(),
        a.span().end() <= c.arena().cursor() <= c.arena().capacity(),
        b.span().end() <= c.arena().cursor(),
{
    assert(c.handles().contains_key(a.id()) && c.handles().contains_key(b.id()));
}

/// After a restart the cursor is back at the start, so the next block begins at the buffer's
/// first byte, over bytes that earlier blocks held, and it fits exactly when its size does.
pub proof fn lemma_restart_reuses(capacity: nat, size: nat, align: nat)
    requires
        align > 0,
    ensures
        placement(0, align) == 0,
        fits(0, capacity, size, align) <==> size <= capacity,
{
    vstd::arithmetic::div_mod::lemma_mod_self_0(align as int);
}

/// Once the cursor has reached the capacity, as after the whole buffer was taken back as one
/// block, no block of at least one byte fits.
pub proof fn lemma_full_arena_refuses(capacity: nat, size: nat, align: nat)
    requires
        size > 0,
        align > 0,
    ensures
        !fits(capacity, capacity, size, align),
{
    lemma_padding_bounds(capacity, align);
}

/// Each block of a run lies between the cursor it started from and the capacity.
pub proof fn lemma_blocks_within(cursor: nat, capacity: nat, reqs: Seq<(nat, nat)>)
    requires
        aligns_ok(reqs),
    ensures
        blocks(cursor, capacity, reqs).len() == reqs.len(),
        forall|i: int| #![trigger blocks(cursor, capacity, reqs)[i]]
            0 <= i < reqs.len() && blocks(cursor, capacity, reqs)[i] is Some ==> {
                let b = blocks(cursor, capacity, reqs)[i]->Some_0;
                cursor <= b.0 <= b.1 <= capacity
            },
    decreases reqs.len(),
{
    if reqs.len() > 0 {
        let size = reqs[0].0;
        let align = reqs[0].1;
        let rest = reqs.skip(1);
        assert(aligns_ok(rest)) by {
            assert forall|i: int| 0 <= i < rest.len() implies rest[i].1 > 0 by {
                assert(rest[i] == reqs[i + 1]);
            }
        }
        lemma_padding_bounds(cursor, align);
        if fits(cursor, capacity, size, align) {
            let start = placement(cursor, align);
            lemma_blocks_within((start + size) as nat, capacity, rest);
        } else {
            lemma_blocks_within(cursor, capacity, rest);
        }
    }
}

/// Within one generation of an arena, the blocks handed out by a run of allocations lie inside
/// the buffer and no two of them overlap.
pub proof fn lemma_blocks_disjoint(cursor: nat, capacity: nat, reqs: Seq<(nat, nat)>)
    requires
        aligns_ok(reqs),
    ensures
        forall|i: int| #![trigger blocks(cursor, capacity, reqs)[i]]
            0 <= i < reqs.len() && blocks(cursor, capacity, reqs)[i] is Some ==> {
                let b = blocks(cursor, capacity, reqs)[i]->Some_0;
                cursor <= b.0 <= b.1 <= capacity
            },
        forall|i: int, j: int|
            0 <= i < j < reqs.len() && (#[trigger] blocks(cursor, capacity, reqs)[i]) is Some
                && (#[trigger] blocks(cursor, capacity, reqs)[j]) is Some ==> {
                let bi = blocks(cursor, capacity, reqs)[i]->Some_0;
                let bj = blocks(cursor, capacity, reqs)[j]->Some_0;
                bi.1 <= bj.0
            },
    decreases reqs.len(),
{
    lemma_blocks_within(cursor, capacity, reqs);
    if reqs.len() > 0 {
        let size = reqs[0].0;
        let align = reqs[0].1;
        let rest = reqs.skip(1);
        assert(aligns_ok(rest)) by {
            assert forall|i: int| 0 <= i < rest.len() implies rest[i].1 > 0 by {
                assert(rest[i] == reqs[i + 1]);
            }
        }
        lemma_padding_bounds(cursor, align);
        let next = if fits(cursor, capacity, size, align) {
            (placement(cursor, align) + size) as nat
        } else {
            cursor
        };
        lemma_blocks_disjoint(next, capacity, rest);
        lemma_blocks_within(next, capacity, rest);
        let all = blocks(cursor, capacity, reqs);
        let tail = blocks(next, capacity, rest);
        assert forall|k: int| 0 <= k < rest.len() implies all[k + 1] == tail[k] by {}
        assert forall|i: int, j: int|
            0 <= i < j < reqs.len() && (#[trigger] all[i]) is Some && (#[trigger] all[j]) is Some implies
                all[i]->Some_0.1 <= all[j]->Some_0.0 by {
            assert(all[j] == tail[j - 1]);
            if i > 0 {
                assert(all[i] == tail[i - 1]);
            }
        }
    }
}

} // verus!
