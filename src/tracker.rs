//! Registry of the (file, block) keys a run has already read, labelling each
//! read as a first touch or a repeat.

use std::collections::HashSet;
use vstd::prelude::*;

verus! {

broadcast use vstd::std_specs::hash::group_hash_axioms;

/// The hash key of block `block` of file `file`: the file index in the high
/// 64 bits, the block index in the low 64 bits.
pub open spec fn access_key(file: usize, block: usize) -> u128 {
    (file as int * 0x1_0000_0000_0000_0000int + block as int) as u128
}

proof fn lemma_access_key_injective(f1: usize, b1: usize, f2: usize, b2: usize)
    ensures
        access_key(f1, b1) == access_key(f2, b2) ==> f1 == f2 && b1 == b2,
{
}

/// The set of (file, block) keys presented so far. It starts empty and
/// never shrinks.
pub struct FirstTouchTracker {
    seen: HashSet<u128>,
}

impl View for FirstTouchTracker {
    type V = Set<(usize, usize)>;

    closed spec fn view(&self) -> Set<(usize, usize)> {
        Set::new(|k: (usize, usize)| self.seen@.contains(access_key(k.0, k.1)))
    }
}

impl FirstTouchTracker {
    /// An empty registry.
    pub fn new() -> (r: FirstTouchTracker)
        ensures
            r@ == Set::<(usize, usize)>::empty(),
    {
        let r = FirstTouchTracker { seen: HashSet::new() };
        assert(r@ =~= Set::<(usize, usize)>::empty());
        r
    }

    /// Records the key `(file_index, block_index)` and tells whether this is
    /// the first time it was presented.
    pub fn mark_and_check(&mut self, file_index: usize, block_index: usize) -> (r: bool)
        ensures
            r == !old(self)@.contains((file_index, block_index)),
            final(self)@ == old(self)@.insert((file_index, block_index)),
    {
        let key = (file_index as u128) * 0x1_0000_0000_0000_0000u128 + block_index as u128;
        let r = self.seen.insert(key);
        proof {
            assert forall|k: (usize, usize)|
                old(self).seen@.contains(access_key(k.0, k.1)) || k == (file_index, block_index)
                    <==> #[trigger] final(self).seen@.contains(access_key(k.0, k.1)) by {
                lemma_access_key_injective(k.0, k.1, file_index, block_index);
            }
            assert(final(self)@ =~= old(self)@.insert((file_index, block_index)));
            if old(self)@.contains((file_index, block_index)) {
                assert(old(self).seen@.contains(access_key(file_index, block_index)));
            }
        }
        r
    }

    /// Whether the key `(file_index, block_index)` was presented before.
    pub fn contains(&self, file_index: usize, block_index: usize) -> (r: bool)
        ensures
            r == self@.contains((file_index, block_index)),
    {
        let key = (file_index as u128) * 0x1_0000_0000_0000_0000u128 + block_index as u128;
        self.seen.contains(&key)
    }
}

/// What the `i`-th of successive calls of `mark_and_check` on a fresh
/// registry returns when the keys `keys` are presented in this order: true
/// exactly where the key was not presented before.
pub open spec fn is_first_touch(keys: Seq<(usize, usize)>, i: int) -> bool {
    !keys.subrange(0, i).contains(keys[i])
}

/// Some presentation of the `i`-th key, at `i` or earlier, is its first
/// touch.
pub open spec fn first_touch_at_or_before(keys: Seq<(usize, usize)>, i: int) -> bool {
    exists|j: int| 0 <= j <= i && keys[j] == keys[i] && #[trigger] is_first_touch(keys, j)
}

/// The keys a fresh registry holds once `keys` were presented to it.
pub open spec fn presented(keys: Seq<(usize, usize)>) -> Set<(usize, usize)> {
    keys.to_set()
}

/// Presenting a key to the registry holding the keys presented so far
/// returns its first-touch flag, and adds the key.
pub proof fn lemma_marks_follow_flags(keys: Seq<(usize, usize)>, i: int)
    requires
        0 <= i < keys.len(),
    ensures
        is_first_touch(keys, i) == !presented(keys.subrange(0, i)).contains(keys[i]),
        presented(keys.subrange(0, i + 1)) == presented(keys.subrange(0, i)).insert(keys[i]),
{
    broadcast use vstd::seq_lib::group_seq_properties;

    assert(keys.subrange(0, i + 1) =~= keys.subrange(0, i).push(keys[i]));
    keys.subrange(0, i).lemma_push_to_set_commute(keys[i]);
}

/// Whatever the order in which the workers' calls take effect, every key
/// presented gets exactly one first touch: one call for that key returns
/// true, at its first presentation, and every other call for it returns
/// false.
pub proof fn lemma_exactly_one_first_touch(keys: Seq<(usize, usize)>)
    ensures
        forall|i: int, j: int|
            0 <= i < keys.len() && 0 <= j < keys.len() && keys[i] == keys[j]
                && #[trigger] is_first_touch(keys, i) && #[trigger] is_first_touch(keys, j)
                ==> i == j,
        forall|i: int|
            0 <= i < keys.len() ==> #[trigger] first_touch_at_or_before(keys, i),
{
    assert forall|i: int, j: int|
        0 <= i < keys.len() && 0 <= j < keys.len() && keys[i] == keys[j]
            && #[trigger] is_first_touch(keys, i) && #[trigger] is_first_touch(keys, j) implies i == j by {
        if i < j {
            assert(keys.subrange(0, j)[i] == keys[j]);
        } else if j < i {
            assert(keys.subrange(0, i)[j] == keys[i]);
        }
    }
    assert forall|i: int| 0 <= i < keys.len() implies #[trigger] first_touch_at_or_before(keys, i) by {
        lemma_earlier_first_touch(keys, i);
    }
}

proof fn lemma_earlier_first_touch(keys: Seq<(usize, usize)>, i: int)
    requires
        0 <= i < keys.len(),
    ensures
        exists|j: int|
            #![trigger is_first_touch(keys, j)]
            0 <= j <= i && keys[j] == keys[i] && is_first_touch(keys, j),
    decreases i,
{
    if !is_first_touch(keys, i) {
        let m = choose|m: int| 0 <= m < i && #[trigger] keys.subrange(0, i)[m] == keys[i];
        assert(keys[m] == keys[i]);
        lemma_earlier_first_touch(keys, m);
    }
}

} // verus!
