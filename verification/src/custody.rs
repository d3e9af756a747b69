//! Custody of the slots over time.
//!
//! A model of the pool as its participants see it: the directory, and the
//! handles that are out, each named by the index of its slot. The laws below
//! hold of every history that starts from a pool in which nothing is lent out
//! and proceeds by acquiring and releasing, in any order and by any number of
//! participants: each step is one visit to the directory, and those visits
//! are serialized by the directory's lock. What a step does to the directory
//! is what the contract of the matching method of `SlotDirectory` states.
use crate::directory::{
    has_free, is_free, is_freshest_free, is_newest, is_stalest_free, lemma_free_slot_can_be_chosen,
    lemma_freshest_free_is_unique, lemma_reader_gets_newest, lemma_retired_slot_is_newest,
    occupied_set, occupy, pristine, retire, vacate, BufferInfo,
};
use vstd::prelude::*;
use vstd::set_lib::{lemma_int_range, lemma_len_subset, lemma_subset_equality, set_int_range};

verus! {

/// The directory, and the slot index of every handle that is out, in the
/// order in which the handles were given out.
pub struct Custody {
    pub slots: Seq<BufferInfo>,
    pub handles: Seq<int>,
}

/// One visit to the directory.
pub enum Operation {
    /// A reader asks for a slot.
    AcquireRead,
    /// A writer asks for a slot.
    AcquireWrite,
    /// The reader holding the handle of slot `slot` gives it back.
    ReleaseRead { slot: int },
    /// The writer holding the handle of slot `slot` gives it back.
    ReleaseWrite { slot: int },
}

/// A pool of `n` slots before its first use.
pub open spec fn initial(n: nat) -> Custody {
    Custody { slots: pristine(n), handles: Seq::empty() }
}

/// `op` takes the pool from `pre` to `post`. An acquire is possible only
/// while a slot is free; a release only of a handle that is out.
pub open spec fn step(pre: Custody, op: Operation, post: Custody) -> bool {
    match op {
        Operation::AcquireRead => exists|i: int|
            {
                &&& #[trigger] is_freshest_free(pre.slots, i)
                &&& post.slots == occupy(pre.slots, i)
                &&& post.handles == pre.handles.push(i)
            },
        Operation::AcquireWrite => exists|i: int|
            {
                &&& #[trigger] is_stalest_free(pre.slots, i)
                &&& post.slots == occupy(pre.slots, i)
                &&& post.handles == pre.handles.push(i)
            },
        Operation::ReleaseRead { slot } => {
            &&& pre.handles.contains(slot)
            &&& post.slots == vacate(pre.slots, slot)
            &&& post.handles == pre.handles.remove_value(slot)
        },
        Operation::ReleaseWrite { slot } => {
            &&& pre.handles.contains(slot)
            &&& post.slots == retire(pre.slots, slot)
            &&& post.handles == pre.handles.remove_value(slot)
        },
    }
}

/// `states` is what a pool of `n` slots goes through under `ops`, from its
/// first use on.
pub open spec fn is_history(n: nat, states: Seq<Custody>, ops: Seq<Operation>) -> bool {
    &&& states.len() == ops.len() + 1
    &&& states[0] == initial(n)
    &&& forall|k: int| 0 <= k < ops.len() ==> step(states[k], #[trigger] ops[k], states[k + 1])
}

/// Every handle that is out names a slot of its own, and the slots named are
/// exactly the occupied ones.
pub open spec fn exclusive(c: Custody) -> bool {
    &&& c.handles.no_duplicates()
    &&& forall|i: int| c.handles.contains(i) <==> #[trigger] occupied_set(c.slots).contains(i)
}

proof fn lemma_acquire_keeps_exclusive(pre: Custody, i: int, post: Custody)
    requires
        exclusive(pre),
        is_free(pre.slots, i),
        post.slots == occupy(pre.slots, i),
        post.handles == pre.handles.push(i),
    ensures
        exclusive(post),
        post.slots.len() == pre.slots.len(),
{
    assert(!occupied_set(pre.slots).contains(i));
    assert(!pre.handles.contains(i));
    assert forall|a: int, b: int|
        0 <= a < post.handles.len() && 0 <= b < post.handles.len() && a != b implies post.handles[a]
        != post.handles[b] by {
        if a < pre.handles.len() {
            assert(pre.handles.contains(pre.handles[a]));
        }
        if b < pre.handles.len() {
            assert(pre.handles.contains(pre.handles[b]));
        }
    }
    assert forall|x: int| post.handles.contains(x) <==> #[trigger] occupied_set(
        post.slots,
    ).contains(x) by {
        if post.handles.contains(x) {
            let a = choose|a: int| 0 <= a < post.handles.len() && post.handles[a] == x;
            if a < pre.handles.len() {
                assert(pre.handles.contains(x));
                assert(occupied_set(pre.slots).contains(x));
            }
        }
        if occupied_set(post.slots).contains(x) {
            if x == i {
                assert(post.handles[pre.handles.len() as int] == x);
            } else {
                assert(occupied_set(pre.slots).contains(x));
                let a = choose|a: int| 0 <= a < pre.handles.len() && pre.handles[a] == x;
                assert(post.handles[a] == x);
            }
        }
    }
}

proof fn lemma_release_keeps_exclusive(pre: Custody, slot: int, post: Custody)
    requires
        exclusive(pre),
        pre.handles.contains(slot),
        post.slots.len() == pre.slots.len(),
        !post.slots[slot].occupied,
        forall|j: int|
            0 <= j < pre.slots.len() && j != slot ==> (#[trigger] post.slots[j]).occupied
                == pre.slots[j].occupied,
        post.handles == pre.handles.remove_value(slot),
    ensures
        exclusive(post),
{
    pre.handles.index_of_first_ensures(slot);
    let k = pre.handles.index_of_first(slot).unwrap();
    pre.handles.remove_ensures(k);
    assert(post.handles == pre.handles.remove(k));
    assert forall|a: int, b: int|
        0 <= a < post.handles.len() && 0 <= b < post.handles.len() && a != b implies post.handles[a]
        != post.handles[b] by {
        let a0 = if a < k { a } else { a + 1 };
        let b0 = if b < k { b } else { b + 1 };
        assert(post.handles[a] == pre.handles[a0]);
        assert(post.handles[b] == pre.handles[b0]);
    }
    assert forall|x: int| post.handles.contains(x) <==> #[trigger] occupied_set(
        post.slots,
    ).contains(x) by {
        if post.handles.contains(x) {
            let a = choose|a: int| 0 <= a < post.handles.len() && post.handles[a] == x;
            let a0 = if a < k { a } else { a + 1 };
            assert(pre.handles[a0] == x);
            assert(pre.handles.contains(x));
            assert(occupied_set(pre.slots).contains(x));
            assert(a0 != k);
            assert(x != slot);
            assert(post.slots[x].occupied == pre.slots[x].occupied);
        }
        if occupied_set(post.slots).contains(x) {
            assert(x != slot);
            assert(post.slots[x].occupied == pre.slots[x].occupied);
            assert(occupied_set(pre.slots).contains(x));
            let a0 = choose|a0: int| 0 <= a0 < pre.handles.len() && pre.handles[a0] == x;
            assert(a0 != k);
            let a = if a0 < k { a0 } else { a0 - 1 };
            assert(post.handles[a] == x);
        }
    }
}

/// A step that starts with every handle naming a slot of its own ends so,
/// and leaves the number of slots as it was.
pub proof fn lemma_step_keeps_exclusive(pre: Custody, op: Operation, post: Custody)
    requires
        exclusive(pre),
        step(pre, op, post),
    ensures
        exclusive(post),
        post.slots.len() == pre.slots.len(),
{
    match op {
        Operation::AcquireRead => {
            let i = choose|i: int|
                {
                    &&& #[trigger] is_freshest_free(pre.slots, i)
                    &&& post.slots == occupy(pre.slots, i)
                    &&& post.handles == pre.handles.push(i)
                };
            lemma_acquire_keeps_exclusive(pre, i, post);
        },
        Operation::AcquireWrite => {
            let i = choose|i: int|
                {
                    &&& #[trigger] is_stalest_free(pre.slots, i)
                    &&& post.slots == occupy(pre.slots, i)
                    &&& post.handles == pre.handles.push(i)
                };
            lemma_acquire_keeps_exclusive(pre, i, post);
        },
        Operation::ReleaseRead { slot } => {
            assert(occupied_set(pre.slots).contains(slot));
            lemma_release_keeps_exclusive(pre, slot, post);
        },
        Operation::ReleaseWrite { slot } => {
            assert(occupied_set(pre.slots).contains(slot));
            lemma_release_keeps_exclusive(pre, slot, post);
        },
    }
}

/// The occupied slots of a directory are at most as many as its slots.
pub proof fn lemma_occupied_at_most_all(slots: Seq<BufferInfo>)
    ensures
        occupied_set(slots).finite(),
        occupied_set(slots).len() <= slots.len(),
{
    lemma_int_range(0, slots.len() as int);
    lemma_len_subset(occupied_set(slots), set_int_range(0, slots.len() as int));
}

/// Where every handle names a slot of its own, there are as many handles out
/// as there are occupied slots.
pub proof fn lemma_handles_count_occupied(c: Custody)
    requires
        exclusive(c),
    ensures
        c.handles.len() == occupied_set(c.slots).len(),
{
    c.handles.unique_seq_to_set();
    assert(c.handles.to_set() =~= occupied_set(c.slots));
}

/// At every instant of every history of a pool of `n` slots, no two handles
/// that are out name the same slot, the slots they name are the occupied
/// ones, and there are at most `n` of them.
pub proof fn lemma_history_is_exclusive(
    n: nat,
    states: Seq<Custody>,
    ops: Seq<Operation>,
    at: int,
)
    requires
        is_history(n, states, ops),
        0 <= at < states.len(),
    ensures
        states[at].slots.len() == n,
        exclusive(states[at]),
        states[at].handles.no_duplicates(),
        states[at].handles.len() == occupied_set(states[at].slots).len(),
        occupied_set(states[at].slots).len() <= n,
    decreases at,
{
    if at == 0 {
        assert(occupied_set(pristine(n)) =~= Set::<int>::empty());
        assert(exclusive(states[0]));
    } else {
        lemma_history_is_exclusive(n, states, ops, at - 1);
        assert(step(states[at - 1], ops[at - 1], states[at - 1 + 1]));
        lemma_step_keeps_exclusive(states[at - 1], ops[at - 1], states[at]);
    }
    lemma_occupied_at_most_all(states[at].slots);
    lemma_handles_count_occupied(states[at]);
}

/// An acquire never hands out a slot that a handle already names.
pub proof fn lemma_acquire_gives_unheld_slot(
    n: nat,
    states: Seq<Custody>,
    ops: Seq<Operation>,
    at: int,
)
    requires
        is_history(n, states, ops),
        0 <= at < ops.len(),
        ops[at] is AcquireRead || ops[at] is AcquireWrite,
    ensures
        states[at + 1].handles == states[at].handles.push(states[at + 1].handles.last()),
        !states[at].handles.contains(states[at + 1].handles.last()),
{
    lemma_history_is_exclusive(n, states, ops, at);
    let pre = states[at];
    let post = states[at + 1];
    assert(step(pre, ops[at], post));
    let i = post.handles.last();
    assert(is_free(pre.slots, i));
    assert(!occupied_set(pre.slots).contains(i));
}

/// After as many acquires as the pool has slots, and no release, no slot is
/// free: one more acquire finds nothing to hand out.
pub proof fn lemma_pool_exhausted(n: nat, states: Seq<Custody>, ops: Seq<Operation>)
    requires
        is_history(n, states, ops),
        ops.len() == n,
        forall|k: int| 0 <= k < ops.len() ==> ops[k] is AcquireRead || ops[k] is AcquireWrite,
    ensures
        !has_free(states[n as int].slots),
        forall|post: Custody| !step(states[n as int], Operation::AcquireRead, post),
        forall|post: Custody| !step(states[n as int], Operation::AcquireWrite, post),
{
    lemma_acquires_add_handles(n, states, ops, n as int);
    lemma_history_is_exclusive(n, states, ops, n as int);
    let last = states[n as int];
    lemma_int_range(0, n as int);
    lemma_occupied_at_most_all(last.slots);
    lemma_subset_equality(occupied_set(last.slots), set_int_range(0, n as int));
    assert forall|i: int| !is_free(last.slots, i) by {
        if 0 <= i < n {
            assert(set_int_range(0, n as int).contains(i));
            assert(occupied_set(last.slots).contains(i));
        }
    }
}

/// While fewer handles are out than the pool has slots, a reader and a
/// writer that ask for a slot each get one.
pub proof fn lemma_acquire_succeeds_below_capacity(
    n: nat,
    states: Seq<Custody>,
    ops: Seq<Operation>,
    at: int,
)
    requires
        is_history(n, states, ops),
        0 <= at < states.len(),
        states[at].handles.len() < n,
    ensures
        has_free(states[at].slots),
        exists|post: Custody| step(states[at], Operation::AcquireRead, post),
        exists|post: Custody| step(states[at], Operation::AcquireWrite, post),
{
    lemma_history_is_exclusive(n, states, ops, at);
    let now = states[at];
    if !has_free(now.slots) {
        assert forall|i: int| 0 <= i < n implies occupied_set(now.slots).contains(i) by {
            assert(!is_free(now.slots, i));
        }
        lemma_int_range(0, n as int);
        assert(occupied_set(now.slots) =~= set_int_range(0, n as int));
    }
    lemma_free_slot_can_be_chosen(now.slots);
    let reader = choose|i: int| is_freshest_free(now.slots, i);
    let writer = choose|i: int| is_stalest_free(now.slots, i);
    assert(step(
        now,
        Operation::AcquireRead,
        Custody { slots: occupy(now.slots, reader), handles: now.handles.push(reader) },
    ));
    assert(step(
        now,
        Operation::AcquireWrite,
        Custody { slots: occupy(now.slots, writer), handles: now.handles.push(writer) },
    ));
}

/// From the moment a writer gives slot `written` back until a writer gives
/// back another slot, `written` is the slot that holds the newest data,
/// whatever readers and writers acquire and readers release in between.
pub proof fn lemma_last_written_stays_newest(
    n: nat,
    states: Seq<Custody>,
    ops: Seq<Operation>,
    released: int,
    written: int,
    at: int,
)
    requires
        is_history(n, states, ops),
        0 <= released < at < states.len(),
        ops[released] == (Operation::ReleaseWrite { slot: written }),
        forall|k: int| released < k < at ==> !(#[trigger] ops[k] is ReleaseWrite),
    ensures
        is_newest(states[at].slots, written),
    decreases at,
{
    let before = states[at - 1];
    let after = states[at];
    assert(step(before, ops[at - 1], states[at - 1 + 1]));
    lemma_history_is_exclusive(n, states, ops, at - 1);
    if at - 1 == released {
        assert(occupied_set(before.slots).contains(written));
        lemma_retired_slot_is_newest(before.slots, written);
    } else {
        lemma_last_written_stays_newest(n, states, ops, released, written, at - 1);
        assert(after.slots.len() == before.slots.len()) by {
            lemma_step_keeps_exclusive(before, ops[at - 1], after);
        }
        assert forall|j: int| 0 <= j < after.slots.len() implies (#[trigger] after.slots[
            j
        ]).freshness == before.slots[j].freshness by {
            match ops[at - 1] {
                Operation::AcquireRead => {},
                Operation::AcquireWrite => {},
                Operation::ReleaseRead { slot } => {
                    assert(occupied_set(before.slots).contains(slot));
                },
                Operation::ReleaseWrite { slot } => {},
            }
        }
    }
}

/// A reader that asks after a writer has given slot `written` back, and
/// before a writer gives back another, gets `written` if it is free: the
/// newest data that is to be had.
pub proof fn lemma_reader_sees_last_written(
    n: nat,
    states: Seq<Custody>,
    ops: Seq<Operation>,
    released: int,
    written: int,
    at: int,
)
    requires
        is_history(n, states, ops),
        0 <= released < at < ops.len(),
        ops[released] == (Operation::ReleaseWrite { slot: written }),
        forall|k: int| released < k < at ==> !(#[trigger] ops[k] is ReleaseWrite),
        ops[at] is AcquireRead,
        is_free(states[at].slots, written),
    ensures
        states[at + 1].handles == states[at].handles.push(written),
{
    lemma_last_written_stays_newest(n, states, ops, released, written, at);
    lemma_reader_gets_newest(states[at].slots, written);
    assert(step(states[at], ops[at], states[at + 1]));
    let i = choose|i: int|
        {
            &&& #[trigger] is_freshest_free(states[at].slots, i)
            &&& states[at + 1].slots == occupy(states[at].slots, i)
            &&& states[at + 1].handles == states[at].handles.push(i)
        };
    lemma_freshest_free_is_unique(states[at].slots, i, written);
}

proof fn lemma_acquires_add_handles(
    n: nat,
    states: Seq<Custody>,
    ops: Seq<Operation>,
    at: int,
)
    requires
        is_history(n, states, ops),
        0 <= at < states.len(),
        forall|k: int| 0 <= k < at ==> ops[k] is AcquireRead || ops[k] is AcquireWrite,
    ensures
        states[at].handles.len() == at,
    decreases at,
{
    if at > 0 {
        lemma_acquires_add_handles(n, states, ops, at - 1);
        assert(step(states[at - 1], ops[at - 1], states[at - 1 + 1]));
    }
}

} // verus!
