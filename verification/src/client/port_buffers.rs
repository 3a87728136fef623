//! The buffers of a port, and which of them each mix holds.
//!
//! An output port hands a free buffer to all of its mixes at once; a buffer
//! stays in use as long as some mix holds it. Which buffers each mix holds
//! is a set of bits per mix; which buffers are in use is a set of bits in
//! the first set of buffers.

use vstd::prelude::*;

use super::bits::{
    bit_mask, clear_bit, first_zero, has_bit, lemma_clear_bit, lemma_empty, lemma_same_bit,
    lemma_set_bit, ones, set_bit, test_bit,
};
use super::buffer::Buffers;
use super::ffi::{STATUS_HAVE_DATA, STATUS_NEED_DATA, STATUS_OK};
use super::id::{MixId, MIX_INVALID};

verus! {

/// The direction of a port that consumes data.
pub const DIRECTION_INPUT: u32 = 0;

/// The direction of a port that produces data.
pub const DIRECTION_OUTPUT: u32 = 1;

/// The number of mixes whose buffers an output port keeps track of.
pub const OUTPUT_MIXES: usize = 64;

/// What the exchange area of one mix of a port held when it was read.
#[derive(Debug, Clone, Copy, PartialEq, Eq, Structural)]
pub struct IoBufferState {
    /// The mix the area belongs to.
    pub mix_id: MixId,
    /// The status flags in the area.
    pub status: i32,
    /// The buffer in the area, negative if none.
    pub buffer_id: i32,
}

/// The buffers of a port, and which of them each mix holds.
pub struct PortBuffers {
    /// The sets of buffers assigned to the port.
    buffers: Vec<Buffers>,
    /// One set of bits per mix: the buffers that the mix holds.
    mixes: Vec<u128>,
}

/// Whether some mix holds the buffer `id`.
pub open spec fn held(mixes: Seq<u128>, id: u32) -> bool {
    exists|k: int| 0 <= k < mixes.len() && has_bit(#[trigger] mixes[k], id)
}

/// The set of buffers with the in-use bits replaced.
pub open spec fn with_available(b: Buffers, available: u128) -> Buffers {
    Buffers {
        direction: b.direction,
        port_id: b.port_id,
        mix_id: b.mix_id,
        flags: b.flags,
        buffers: b.buffers,
        available,
    }
}

/// Which buffers each mix holds after the mix `mix` lets go of buffer `id`.
pub open spec fn free_mixes(mixes: Seq<u128>, mix: MixId, id: u32) -> Seq<u128> {
    if mix.0 < mixes.len() {
        mixes.update(mix.0 as int, mixes[mix.0 as int] & !bit_mask(id))
    } else {
        mixes
    }
}

/// The sets of buffers after buffer `id` was let go of, given which buffers
/// the mixes hold afterwards: it is no longer in use unless a mix holds it.
pub open spec fn free_sets(sets: Seq<Buffers>, mixes: Seq<u128>, id: u32) -> Seq<Buffers> {
    if sets.len() == 0 || held(mixes, id) {
        sets
    } else {
        sets.update(0, with_available(sets[0], sets[0].available & !bit_mask(id)))
    }
}

/// The state after the mix `mix` lets go of buffer `id`.
pub open spec fn free_model(state: (Seq<u128>, Seq<Buffers>), mix: MixId, id: u32) -> (
    Seq<u128>,
    Seq<Buffers>,
) {
    let mixes = free_mixes(state.0, mix, id);
    (mixes, free_sets(state.1, mixes, id))
}

/// Whether the exchange area asks for its buffer to be recycled: the peer
/// needs data and a buffer is named.
pub open spec fn needs_recycle(io: IoBufferState) -> bool {
    io.status & STATUS_NEED_DATA != 0 && io.buffer_id >= 0
}

/// The state after recycling the buffers of the exchange areas `ios`, in
/// order.
pub open spec fn recycle_model(state: (Seq<u128>, Seq<Buffers>), ios: Seq<IoBufferState>) -> (
    Seq<u128>,
    Seq<Buffers>,
)
    decreases ios.len(),
{
    if ios.len() == 0 {
        state
    } else {
        let before = recycle_model(state, ios.drop_last());
        let io = ios.last();
        if needs_recycle(io) {
            free_model(before, io.mix_id, io.buffer_id as u32)
        } else {
            before
        }
    }
}

/// Which buffers each mix holds after the mixes of `ios` take buffer `id`.
pub open spec fn mark_mixes(mixes: Seq<u128>, ios: Seq<IoBufferState>, id: u32) -> Seq<u128>
    decreases ios.len(),
{
    if ios.len() == 0 {
        mixes
    } else {
        let before = mark_mixes(mixes, ios.drop_last(), id);
        let k = ios.last().mix_id.0;
        if k < before.len() {
            before.update(k as int, before[k as int] | bit_mask(id))
        } else {
            before
        }
    }
}

/// The state after buffer `id` of the first set is taken into use and
/// handed to the mixes of `ios`.
pub open spec fn acquire_model(state: (Seq<u128>, Seq<Buffers>), ios: Seq<IoBufferState>, id: u32) -> (
    Seq<u128>,
    Seq<Buffers>,
) {
    (
        mark_mixes(state.0, ios, id),
        state.1.update(0, with_available(state.1[0], state.1[0].available | bit_mask(id))),
    )
}

/// Whether the exchange area takes the buffer handed to it: the peer
/// neither needs data nor is fine.
pub open spec fn refuses(io: IoBufferState) -> bool {
    io.status & STATUS_NEED_DATA == 0 && io.status & STATUS_OK == 0
}

/// The state after handing buffer `id` to the exchange areas `ios`: the
/// mixes of the areas that refuse it let go of it.
pub open spec fn hand_model(state: (Seq<u128>, Seq<Buffers>), ios: Seq<IoBufferState>, id: u32) -> (
    Seq<u128>,
    Seq<Buffers>,
)
    decreases ios.len(),
{
    if ios.len() == 0 {
        state
    } else {
        let before = hand_model(state, ios.drop_last(), id);
        let io = ios.last();
        if refuses(io) {
            free_model(before, io.mix_id, id)
        } else {
            before
        }
    }
}

/// How the state changes when the mix `mix` is gone: it lets go of every
/// buffer it held, and those that no other mix holds are no longer in use.
pub open spec fn freed_all(
    before: (Seq<u128>, Seq<Buffers>),
    after: (Seq<u128>, Seq<Buffers>),
    mix: MixId,
) -> bool {
    if mix.0 >= before.0.len() {
        after == before
    } else {
        let mixes = before.0.update(mix.0 as int, 0);
        let sets = before.1;
        let gone = before.0[mix.0 as int];
        &&& after.0 == mixes
        &&& sets.len() == 0 ==> after.1 == sets
        &&& sets.len() > 0 ==> {
            &&& after.1 == sets.update(0, with_available(sets[0], after.1[0].available))
            &&& forall|i: u32|
                i < 128 ==> (has_bit(after.1[0].available, i) == (has_bit(sets[0].available, i)
                    && !(has_bit(gone, i) && !held(mixes, i))))
        }
    }
}

/// Every buffer that a mix holds is in use in the first set of buffers.
pub open spec fn holds_in_use(mixes: Seq<u128>, sets: Seq<Buffers>) -> bool {
    sets.len() > 0 ==> forall|k: int, i: u32|
        0 <= k < mixes.len() && #[trigger] has_bit(mixes[k], i) ==> has_bit(sets[0].available, i)
}

/// Letting go of a buffer keeps every held buffer in use.
pub proof fn lemma_free_keeps(state: (Seq<u128>, Seq<Buffers>), mix: MixId, id: u32)
    requires
        holds_in_use(state.0, state.1),
    ensures
        holds_in_use(free_model(state, mix, id).0, free_model(state, mix, id).1),
{
    let mixes = free_mixes(state.0, mix, id);
    let sets = free_sets(state.1, mixes, id);
    if sets.len() > 0 {
        assert forall|k: int, i: u32|
            0 <= k < mixes.len() && #[trigger] has_bit(mixes[k], i) implies has_bit(
            sets[0].available,
            i,
        ) by {
            if mix.0 < state.0.len() && k == mix.0 {
                lemma_clear_bit(state.0[k], id, i);
            }
            assert(has_bit(state.0[k], i));
            if !held(mixes, id) {
                lemma_clear_bit(state.1[0].available, id, i);
                if id % 128 == i % 128 {
                    lemma_same_bit(mixes[k], id, i);
                    assert(held(mixes, id));
                }
            }
        }
    }
}

/// Recycling keeps every held buffer in use.
pub proof fn lemma_recycle_keeps(state: (Seq<u128>, Seq<Buffers>), ios: Seq<IoBufferState>)
    requires
        holds_in_use(state.0, state.1),
    ensures
        holds_in_use(recycle_model(state, ios).0, recycle_model(state, ios).1),
    decreases ios.len(),
{
    if ios.len() > 0 {
        lemma_recycle_keeps(state, ios.drop_last());
        let before = recycle_model(state, ios.drop_last());
        let io = ios.last();
        if needs_recycle(io) {
            lemma_free_keeps(before, io.mix_id, io.buffer_id as u32);
        }
    }
}

/// Handing a buffer out keeps every held buffer in use.
pub proof fn lemma_hand_keeps(state: (Seq<u128>, Seq<Buffers>), ios: Seq<IoBufferState>, id: u32)
    requires
        holds_in_use(state.0, state.1),
    ensures
        holds_in_use(hand_model(state, ios, id).0, hand_model(state, ios, id).1),
    decreases ios.len(),
{
    if ios.len() > 0 {
        lemma_hand_keeps(state, ios.drop_last(), id);
        let before = hand_model(state, ios.drop_last(), id);
        let io = ios.last();
        if refuses(io) {
            lemma_free_keeps(before, io.mix_id, id);
        }
    }
}

/// Marking a buffer as held by mixes keeps the length, and a mix holds a
/// buffer afterwards only if it held it before or it is the marked one.
pub proof fn lemma_mark_mixes(mixes: Seq<u128>, ios: Seq<IoBufferState>, id: u32)
    ensures
        mark_mixes(mixes, ios, id).len() == mixes.len(),
        forall|k: int, i: u32|
            0 <= k < mixes.len() && #[trigger] has_bit(mark_mixes(mixes, ios, id)[k], i) ==> (
            has_bit(mixes[k], i) || i % 128 == id % 128),
    decreases ios.len(),
{
    if ios.len() > 0 {
        lemma_mark_mixes(mixes, ios.drop_last(), id);
        let before = mark_mixes(mixes, ios.drop_last(), id);
        let k = ios.last().mix_id.0;
        if k < before.len() {
            assert forall|j: int, i: u32|
                0 <= j < mixes.len() && #[trigger] has_bit(
                    mark_mixes(mixes, ios, id)[j],
                    i,
                ) implies (has_bit(mixes[j], i) || i % 128 == id % 128) by {
                if j == k {
                    lemma_set_bit(before[j], id, i);
                }
                assert(has_bit(before[j], i) || i % 128 == id % 128);
            }
        }
    }
}

impl PortBuffers {
    /// The sets of buffers assigned to the port.
    pub closed spec fn spec_sets(&self) -> Seq<Buffers> {
        self.buffers@
    }

    /// The buffers each mix holds.
    pub closed spec fn spec_mixes(&self) -> Seq<u128> {
        self.mixes@
    }

    /// The state as a pair of the mixes and the sets.
    pub open spec fn model(&self) -> (Seq<u128>, Seq<Buffers>) {
        (self.spec_mixes(), self.spec_sets())
    }

    /// No buffers, and for an output port 64 mixes that hold nothing.
    pub fn new(direction: u32) -> (r: Self)
        ensures
            r.spec_sets().len() == 0,
            r.spec_mixes().len() == (if direction == DIRECTION_OUTPUT {
                OUTPUT_MIXES
            } else {
                0
            }),
            forall|k: int| 0 <= k < r.spec_mixes().len() ==> r.spec_mixes()[k] == 0,
    {
        let n: usize = if direction == DIRECTION_OUTPUT {
            OUTPUT_MIXES
        } else {
            0
        };
        let mut mixes: Vec<u128> = Vec::new();
        while mixes.len() < n
            invariant
                mixes.len() <= n,
                forall|k: int| 0 <= k < mixes.len() ==> mixes[k] == 0,
            decreases n - mixes.len(),
        {
            mixes.push(0);
        }
        PortBuffers { buffers: Vec::new(), mixes }
    }

    /// The sets of buffers assigned to the port.
    pub fn sets(&self) -> (r: &Vec<Buffers>)
        ensures
            r@ == self.spec_sets(),
    {
        &self.buffers
    }

    /// The buffers that each mix holds.
    pub fn mixes(&self) -> (r: &Vec<u128>)
        ensures
            r@ == self.spec_mixes(),
    {
        &self.mixes
    }

    /// Whether some mix holds buffer `id`.
    fn is_held(&self, id: u32) -> (r: bool)
        ensures
            r == held(self.spec_mixes(), id),
    {
        let mut k: usize = 0;
        while k < self.mixes.len()
            invariant
                k <= self.mixes.len(),
                forall|j: int| 0 <= j < k ==> !has_bit(#[trigger] self.mixes@[j], id),
            decreases self.mixes.len() - k,
        {
            if test_bit(self.mixes[k], id) {
                assert(has_bit(self.mixes@[k as int], id));
                return true;
            }
            k = k + 1;
        }
        false
    }

    /// Replace the in-use bits of the first set.
    fn set_first_available(&mut self, available: u128)
        requires
            old(self).spec_sets().len() > 0,
        ensures
            final(self).spec_mixes() == old(self).spec_mixes(),
            final(self).spec_sets() == old(self).spec_sets().update(
                0,
                with_available(old(self).spec_sets()[0], available),
            ),
    {
        let mut first = self.buffers.remove(0);
        first.available = available;
        self.buffers.insert(0, first);
        assert(self.buffers@ =~= old(self).buffers@.update(
            0,
            with_available(old(self).buffers@[0], available),
        ));
    }

    /// The mix `mix_id` lets go of buffer `buffer_id`; the buffer is no
    /// longer in use once no mix holds it.
    pub fn free(&mut self, mix_id: MixId, buffer_id: u32)
        ensures
            final(self).model() == free_model(old(self).model(), mix_id, buffer_id),
    {
        let k = mix_id.index();
        if k < self.mixes.len() {
            let mut m = self.mixes[k];
            clear_bit(&mut m, buffer_id);
            self.mixes.set(k, m);
        }
        assert(self.mixes@ =~= free_mixes(old(self).mixes@, mix_id, buffer_id));
        if self.buffers.len() == 0 {
            return;
        }
        if !self.is_held(buffer_id) {
            let mut a = self.buffers[0].available;
            clear_bit(&mut a, buffer_id);
            self.set_first_available(a);
        }
    }

    /// The mix `mix_id` is gone: it lets go of every buffer it held, and
    /// those that no other mix holds are no longer in use.
    pub fn free_all(&mut self, mix_id: MixId)
        ensures
            freed_all(old(self).model(), final(self).model(), mix_id),
    {
        let k = mix_id.index();
        if k >= self.mixes.len() {
            return;
        }
        let gone = self.mixes[k];
        self.mixes.set(k, 0);
        if self.buffers.len() == 0 {
            return;
        }
        let ids = ones(gone);
        let ghost mixes = self.mixes@;
        let ghost start = self.buffers@[0].available;
        let mut n: usize = 0;
        while n < ids.len()
            invariant
                n <= ids.len(),
                self.mixes@ == mixes,
                self.buffers@.len() > 0,
                old(self).buffers@.len() > 0,
                self.buffers@ == old(self).buffers@.update(
                    0,
                    with_available(old(self).buffers@[0], self.buffers@[0].available),
                ),
                start == old(self).buffers@[0].available,
                forall|j: int| 0 <= j < ids.len() ==> ids[j] < 128 && has_bit(gone, #[trigger] ids[j]),
                forall|i: u32| i < 128 && #[trigger] has_bit(gone, i) ==> ids@.contains(i),
                forall|j: int, l: int| 0 <= j < l < ids.len() ==> ids[j] < ids[l],
                forall|i: u32|
                    i < 128 ==> (has_bit(self.buffers@[0].available, i) == (has_bit(start, i)
                        && !((exists|j: int| 0 <= j < n && ids[j] == i) && !held(mixes, i)))),
            decreases ids.len() - n,
        {
            let id = ids[n];
            let ghost before = self.buffers@[0].available;
            if !self.is_held(id) {
                let mut a = self.buffers[0].available;
                clear_bit(&mut a, id);
                let ghost prev = self.buffers@;
                self.set_first_available(a);
                assert(with_available(prev[0], a) == with_available(old(self).buffers@[0], a));
            }
            assert(self.buffers@ =~= old(self).buffers@.update(
                0,
                with_available(old(self).buffers@[0], self.buffers@[0].available),
            ));
            assert forall|i: u32| i < 128 implies (has_bit(self.buffers@[0].available, i) == (
            has_bit(start, i) && !((exists|j: int| 0 <= j < n + 1 && ids[j] == i) && !held(
                mixes,
                i,
            )))) by {
                if !held(mixes, id) {
                    lemma_clear_bit(before, id, i);
                }
                if i == id {
                    assert(ids[n as int] == i);
                } else {
                    if exists|j: int| 0 <= j < n + 1 && ids[j] == i {
                        let j = choose|j: int| 0 <= j < n + 1 && ids[j] == i;
                        assert(j < n);
                    }
                }
            }
            n = n + 1;
        }
        proof {
            assert forall|i: u32| i < 128 implies (has_bit(self.buffers@[0].available, i) == (
            has_bit(start, i) && !(has_bit(gone, i) && !held(mixes, i)))) by {
                if has_bit(gone, i) {
                    assert(ids@.contains(i));
                    let j = choose|j: int| 0 <= j < ids.len() && ids@[j] == i;
                    assert(ids[j] == i);
                } else {
                    if exists|j: int| 0 <= j < n && ids[j] == i {
                        let j = choose|j: int| 0 <= j < n && ids[j] == i;
                        assert(has_bit(gone, ids[j]));
                    }
                }
            }
        }
    }
}

/// Recycling only touches the buffers that a peer asks back: when no
/// exchange area has the NEED_DATA bit in its status together with a named
/// buffer, the mixes and the in-use bits stay as they were; an area that
/// has both makes its mix let go of the buffer it names.
pub proof fn lemma_recycle_only_on_need_data(
    state: (Seq<u128>, Seq<Buffers>),
    ios: Seq<IoBufferState>,
    io: IoBufferState,
)
    ensures
        (forall|k: int|
            0 <= k < ios.len() ==> (#[trigger] ios[k]).status & STATUS_NEED_DATA == 0
                || ios[k].buffer_id < 0) ==> recycle_model(state, ios) == state,
        io.status & STATUS_NEED_DATA == 0 ==> recycle_model(state, ios.push(io)) == recycle_model(
            state,
            ios,
        ),
        io.status & STATUS_NEED_DATA != 0 && io.buffer_id >= 0 ==> recycle_model(state, ios.push(io))
            == free_model(recycle_model(state, ios), io.mix_id, io.buffer_id as u32),
    decreases ios.len(),
{
    assert(ios.push(io).drop_last() =~= ios);
    if ios.len() > 0 {
        lemma_recycle_only_on_need_data(state, ios.drop_last(), ios.last());
        if forall|k: int|
            0 <= k < ios.len() ==> (#[trigger] ios[k]).status & STATUS_NEED_DATA == 0
                || ios[k].buffer_id < 0 {
            assert forall|k: int|
                0 <= k < ios.drop_last().len() implies (#[trigger] ios.drop_last()[k]).status
                & STATUS_NEED_DATA == 0 || ios.drop_last()[k].buffer_id < 0 by {
                assert(ios.drop_last()[k] == ios[k]);
            }
            assert(ios[ios.len() - 1] == ios.last());
        }
    }
}

/// A peer takes a buffer handed to it exactly when its status has the
/// NEED_DATA bit (the OK status being zero); the mix of every area without
/// it lets go of the buffer, and the mix of an area with it keeps it.
pub proof fn lemma_hand_takes_on_need_data(
    state: (Seq<u128>, Seq<Buffers>),
    ios: Seq<IoBufferState>,
    io: IoBufferState,
    id: u32,
)
    ensures
        !refuses(io) <==> io.status & STATUS_NEED_DATA != 0,
        io.status & STATUS_NEED_DATA != 0 ==> hand_model(state, ios.push(io), id) == hand_model(
            state,
            ios,
            id,
        ),
        io.status & STATUS_NEED_DATA == 0 ==> hand_model(state, ios.push(io), id) == free_model(
            hand_model(state, ios, id),
            io.mix_id,
            id,
        ),
{
    let st = io.status;
    assert(st & 0i32 == 0i32) by (bit_vector);
    assert(ios.push(io).drop_last() =~= ios);
}

impl PortBuffers {
    /// Recycle the buffers that the exchange areas `ios` ask to be
    /// recycled, then hand the lowest free buffer of the first set to every
    /// mix of `ios`, and return its index; `None` when there is no set or
    /// no free buffer in it.
    pub fn next_output(&mut self, ios: &[IoBufferState]) -> (r: Option<u32>)
        ensures
            ({
                let s1 = recycle_model(old(self).model(), ios@);
                let sets = s1.1;
                &&& r is None <==> (sets.len() == 0 || forall|i: u32|
                    i < 128 && !#[trigger] has_bit(sets[0].available, i) ==> i
                        >= sets[0].buffers.len())
                &&& r is None ==> final(self).model() == s1
                &&& r matches Some(id) ==> {
                    &&& sets.len() > 0
                    &&& id < 128
                    &&& id < sets[0].buffers.len()
                    &&& !has_bit(sets[0].available, id)
                    &&& forall|j: u32| j < id ==> #[trigger] has_bit(sets[0].available, j)
                    &&& final(self).model() == acquire_model(s1, ios@, id)
                }
            }),
    {
        let mut n: usize = 0;
        while n < ios.len()
            invariant
                n <= ios.len(),
                self.model() == recycle_model(old(self).model(), ios@.subrange(0, n as int)),
            decreases ios.len() - n,
        {
            let io = ios[n];
            if io.status & STATUS_NEED_DATA != 0 && io.buffer_id >= 0 {
                self.free(io.mix_id, io.buffer_id as u32);
            }
            assert(ios@.subrange(0, n + 1).drop_last() =~= ios@.subrange(0, n as int));
            n = n + 1;
        }
        assert(ios@.subrange(0, ios.len() as int) =~= ios@);
        let ghost s1 = self.model();
        if self.buffers.len() == 0 {
            return None;
        }
        let id = match first_zero(self.buffers[0].available) {
            Some(id) => id,
            None => {
                assert forall|i: u32| i < 128 && !#[trigger] has_bit(
                    self.buffers@[0].available,
                    i,
                ) implies i >= self.buffers@[0].buffers.len() by {
                    let a = self.buffers@[0].available;
                    let b = i % 128;
                    assert(a == u128::MAX);
                    assert(0xffff_ffff_ffff_ffff_ffff_ffff_ffff_ffffu128 & (1u128 << b) != 0)
                        by (bit_vector)
                        requires
                            b < 128,
                    ;
                }
                return None;
            },
        };
        if id as usize >= self.buffers[0].buffers.len() {
            proof {
                let a = self.buffers@[0].available;
                assert forall|i: u32| i < 128 && !#[trigger] has_bit(a, i) implies i
                    >= self.buffers@[0].buffers.len() by {
                    if i < id {
                        assert(has_bit(a, i));
                    }
                }
            }
            return None;
        }
        let mut a = self.buffers[0].available;
        set_bit(&mut a, id);
        self.set_first_available(a);
        let mut m: usize = 0;
        while m < ios.len()
            invariant
                m <= ios.len(),
                self.spec_sets() == s1.1.update(
                    0,
                    with_available(s1.1[0], s1.1[0].available | bit_mask(id)),
                ),
                self.spec_mixes() == mark_mixes(s1.0, ios@.subrange(0, m as int), id),
            decreases ios.len() - m,
        {
            let k = ios[m].mix_id.index();
            if k < self.mixes.len() {
                let mut bits = self.mixes[k];
                set_bit(&mut bits, id);
                self.mixes.set(k, bits);
            }
            assert(ios@.subrange(0, m + 1).drop_last() =~= ios@.subrange(0, m as int));
            assert(self.mixes@ =~= mark_mixes(s1.0, ios@.subrange(0, m + 1), id));
            m = m + 1;
        }
        Some(id)
    }

    /// Hand buffer `id` to the exchange areas `ios`: the mixes of the areas
    /// that refuse it let go of it. Returns, for each area, whether it takes
    /// the buffer.
    pub fn have_data(&mut self, id: u32, ios: &[IoBufferState]) -> (r: Vec<bool>)
        ensures
            final(self).model() == hand_model(old(self).model(), ios@, id),
            r.len() == ios.len(),
            forall|k: int| 0 <= k < ios.len() ==> r[k] == !refuses(#[trigger] ios[k]),
            forall|k: int|
                0 <= k < ios.len() ==> r[k] == ((#[trigger] ios[k]).status & STATUS_NEED_DATA != 0),
    {
        let mut takes: Vec<bool> = Vec::new();
        let mut n: usize = 0;
        while n < ios.len()
            invariant
                n <= ios.len(),
                takes.len() == n,
                forall|k: int| 0 <= k < n ==> takes[k] == !refuses(#[trigger] ios[k]),
                self.model() == hand_model(old(self).model(), ios@.subrange(0, n as int), id),
            decreases ios.len() - n,
        {
            let io = ios[n];
            if io.status & STATUS_NEED_DATA == 0 && io.status & STATUS_OK == 0 {
                self.free(io.mix_id, id);
                takes.push(false);
            } else {
                takes.push(true);
            }
            assert(ios@.subrange(0, n + 1).drop_last() =~= ios@.subrange(0, n as int));
            n = n + 1;
        }
        assert(ios@.subrange(0, ios.len() as int) =~= ios@);
        proof {
            assert forall|k: int| 0 <= k < ios.len() implies takes[k] == ((#[trigger] ios[k]).status
                & STATUS_NEED_DATA != 0) by {
                lemma_hand_takes_on_need_data(old(self).model(), Seq::empty(), ios[k], id);
            }
        }
        takes
    }

    /// The position of the set for the mix `mix_id` and of buffer
    /// `buffer_id` in it: the first set of that mix, if it has such a
    /// buffer.
    pub fn get(&self, mix_id: MixId, buffer_id: u32) -> (r: Option<(usize, usize)>)
        ensures
            ({
                let sets = self.spec_sets();
                match r {
                    Some((s, b)) => {
                        &&& s < sets.len()
                        &&& sets[s as int].mix_id == mix_id
                        &&& forall|j: int| 0 <= j < s ==> #[trigger] sets[j].mix_id != mix_id
                        &&& b == buffer_id
                        &&& b < sets[s as int].buffers.len()
                    },
                    None => forall|s: int|
                        0 <= s < sets.len() && #[trigger] sets[s].mix_id == mix_id ==> (exists|j: int|
                            0 <= j < s && sets[j].mix_id == mix_id) || buffer_id
                            >= sets[s].buffers.len(),
                }
            }),
    {
        let mut s: usize = 0;
        while s < self.buffers.len()
            invariant
                s <= self.buffers.len(),
                forall|j: int| 0 <= j < s ==> #[trigger] self.buffers@[j].mix_id != mix_id,
            decreases self.buffers.len() - s,
        {
            if self.buffers[s].mix_id == mix_id {
                let b = buffer_id as usize;
                if b < self.buffers[s].buffers.len() {
                    return Some((s, b));
                }
                return None;
            }
            s = s + 1;
        }
        None
    }

    /// The buffer an input port reads from the exchange area of mix
    /// `mix_id`: `None` unless the peer has data and the named buffer
    /// exists.
    pub fn next_input(&self, mix_id: MixId, status: i32, buffer_id: i32) -> (r: Option<(usize, usize)>)
        ensures
            status & STATUS_HAVE_DATA == 0 ==> r is None,
            status & STATUS_HAVE_DATA != 0 ==> {
                let sets = self.spec_sets();
                let id = buffer_id as u32;
                match r {
                    Some((s, b)) => {
                        &&& s < sets.len()
                        &&& sets[s as int].mix_id == mix_id
                        &&& forall|j: int| 0 <= j < s ==> #[trigger] sets[j].mix_id != mix_id
                        &&& b == id
                        &&& b < sets[s as int].buffers.len()
                    },
                    None => forall|s: int|
                        0 <= s < sets.len() && #[trigger] sets[s].mix_id == mix_id ==> (exists|j: int|
                            0 <= j < s && sets[j].mix_id == mix_id) || id >= sets[s].buffers.len(),
                }
            },
    {
        if status & STATUS_HAVE_DATA == 0 {
            return None;
        }
        self.get(mix_id, buffer_id as u32)
    }

    /// Assign a new set of buffers. A set for the invalid mix replaces every
    /// set; another replaces the sets of its mix. The sets it replaces are
    /// returned, in order.
    pub fn replace(&mut self, buffers: Buffers) -> (removed: Vec<Buffers>)
        ensures
            final(self).spec_mixes() == old(self).spec_mixes(),
            buffers.mix_id.0 == MIX_INVALID ==> {
                &&& removed@ == old(self).spec_sets()
                &&& final(self).spec_sets() == seq![buffers]
            },
            buffers.mix_id.0 != MIX_INVALID ==> {
                let mix = buffers.mix_id;
                &&& removed@ == old(self).spec_sets().filter(|b: Buffers| b.mix_id == mix)
                &&& final(self).spec_sets() == old(self).spec_sets().filter(
                    |b: Buffers| b.mix_id != mix,
                ).push(buffers)
            },
    {
        let mix = buffers.mix_id;
        let mut kept: Vec<Buffers> = Vec::new();
        let mut removed: Vec<Buffers> = Vec::new();
        let ghost all = self.buffers@;
        let mut rest = Vec::new();
        core::mem::swap(&mut rest, &mut self.buffers);
        let mut n: usize = 0;
        let len = rest.len();
        let ghost keep = |b: Buffers| b.mix_id != mix;
        let ghost take = |b: Buffers| b.mix_id == mix;
        while n < len
            invariant
                n <= len,
                len == all.len(),
                keep == (|b: Buffers| b.mix_id != mix),
                take == (|b: Buffers| b.mix_id == mix),
                rest@ == all.subrange(n as int, len as int),
                mix.0 == MIX_INVALID ==> kept@ == Seq::<Buffers>::empty() && removed@
                    == all.subrange(0, n as int),
                mix.0 != MIX_INVALID ==> kept@ == all.subrange(0, n as int).filter(keep)
                    && removed@ == all.subrange(0, n as int).filter(take),
            decreases len - n,
        {
            let b = rest.remove(0);
            if mix.0 == MIX_INVALID || b.mix_id != mix {
                if mix.0 == MIX_INVALID {
                    removed.push(b);
                } else {
                    kept.push(b);
                }
            } else {
                removed.push(b);
            }
            proof {
                reveal(Seq::filter);
                let s = all.subrange(0, n + 1);
                assert(s.drop_last() =~= all.subrange(0, n as int));
                assert(s.last() == b);
                if mix.0 != MIX_INVALID {
                    assert(s.filter(keep) == (if keep(b) {
                        s.drop_last().filter(keep).push(b)
                    } else {
                        s.drop_last().filter(keep)
                    }));
                    assert(s.filter(take) == (if take(b) {
                        s.drop_last().filter(take).push(b)
                    } else {
                        s.drop_last().filter(take)
                    }));
                }
            }
            assert(rest@ =~= all.subrange(n + 1, len as int));
            assert(mix.0 == MIX_INVALID ==> removed@ =~= all.subrange(0, n + 1));
            n = n + 1;
        }
        assert(all.subrange(0, len as int) =~= all);
        kept.push(buffers);
        self.buffers = kept;
        removed
    }
}

/// Taking a buffer into use and handing it to mixes keeps every held
/// buffer in use.
pub proof fn lemma_acquire_keeps(state: (Seq<u128>, Seq<Buffers>), ios: Seq<IoBufferState>, id: u32)
    requires
        holds_in_use(state.0, state.1),
        state.1.len() > 0,
    ensures
        holds_in_use(acquire_model(state, ios, id).0, acquire_model(state, ios, id).1),
{
    let after = acquire_model(state, ios, id);
    lemma_mark_mixes(state.0, ios, id);
    assert forall|k: int, i: u32|
        0 <= k < after.0.len() && #[trigger] has_bit(after.0[k], i) implies has_bit(
        after.1[0].available,
        i,
    ) by {
        lemma_set_bit(state.1[0].available, id, i);
    }
}

/// What the buffers of a port keep: every buffer that a mix holds is in use
/// in the first set. Letting go of a buffer, recycling, taking the lowest
/// free buffer and handing it out all keep it.
pub proof fn lemma_port_buffers_keep_holds_in_use(
    state: (Seq<u128>, Seq<Buffers>),
    ios: Seq<IoBufferState>,
    mix: MixId,
    id: u32,
)
    requires
        holds_in_use(state.0, state.1),
    ensures
        holds_in_use(free_model(state, mix, id).0, free_model(state, mix, id).1),
        holds_in_use(recycle_model(state, ios).0, recycle_model(state, ios).1),
        holds_in_use(hand_model(state, ios, id).0, hand_model(state, ios, id).1),
        state.1.len() > 0 ==> holds_in_use(
            acquire_model(state, ios, id).0,
            acquire_model(state, ios, id).1,
        ),
{
    lemma_free_keeps(state, mix, id);
    lemma_recycle_keeps(state, ios);
    lemma_hand_keeps(state, ios, id);
    if state.1.len() > 0 {
        lemma_acquire_keeps(state, ios, id);
    }
}

} // verus!
