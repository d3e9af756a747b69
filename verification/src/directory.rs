//! The slot directory: one freshness counter and one occupancy flag per slot.
//!
//! The directory only decides which slot a participant gets; it never holds a
//! buffer. Readers are given the free slot that was written most recently,
//! writers the free slot that was written longest ago, and a write release
//! ages every other slot by one.
use vstd::prelude::*;

verus! {

/// Bookkeeping for one slot of the pool.
#[derive(Clone, Copy, Debug, PartialEq, Eq, Structural)]
pub struct BufferInfo {
    /// Write releases of other slots since this slot was last written.
    pub freshness: usize,
    /// Whether the slot is currently lent out.
    pub occupied: bool,
}

impl Default for BufferInfo {
    fn default() -> (info: Self)
        ensures
            info == (BufferInfo { freshness: 0, occupied: false }),
    {
        BufferInfo { freshness: 0, occupied: false }
    }
}

/// Slot `i` exists and is not lent out.
pub open spec fn is_free(slots: Seq<BufferInfo>, i: int) -> bool {
    0 <= i < slots.len() && !slots[i].occupied
}

/// Some slot is not lent out.
pub open spec fn has_free(slots: Seq<BufferInfo>) -> bool {
    exists|i: int| is_free(slots, i)
}

/// Slot `i` is the one a reader gets: free, of the smallest freshness among
/// the free slots, and the first of those.
pub open spec fn is_freshest_free(slots: Seq<BufferInfo>, i: int) -> bool {
    &&& is_free(slots, i)
    &&& forall|j: int| #[trigger] is_free(slots, j) ==> slots[i].freshness <= slots[j].freshness
    &&& forall|j: int|
        #[trigger] is_free(slots, j) && j < i ==> slots[i].freshness < slots[j].freshness
}

/// Slot `i` is the one a writer gets: free, of the largest freshness among
/// the free slots, and the first of those.
pub open spec fn is_stalest_free(slots: Seq<BufferInfo>, i: int) -> bool {
    &&& is_free(slots, i)
    &&& forall|j: int| #[trigger] is_free(slots, j) ==> slots[i].freshness >= slots[j].freshness
    &&& forall|j: int|
        #[trigger] is_free(slots, j) && j < i ==> slots[i].freshness > slots[j].freshness
}

/// The directory after slot `i` has been lent out.
pub open spec fn occupy(slots: Seq<BufferInfo>, i: int) -> Seq<BufferInfo> {
    slots.update(i, BufferInfo { freshness: slots[i].freshness, occupied: true })
}

/// The directory after slot `i` has come back from a reader.
pub open spec fn vacate(slots: Seq<BufferInfo>, i: int) -> Seq<BufferInfo> {
    slots.update(i, BufferInfo { freshness: slots[i].freshness, occupied: false })
}

/// A freshness counter one write release later. A counter that has reached
/// `usize::MAX` stays there.
pub open spec fn aged(freshness: usize) -> usize {
    if freshness < usize::MAX {
        (freshness + 1) as usize
    } else {
        freshness
    }
}

/// The directory after slot `i` has come back from a writer: slot `i` is free
/// with freshness 0, every other slot is one write release older.
pub open spec fn retire(slots: Seq<BufferInfo>, i: int) -> Seq<BufferInfo> {
    Seq::new(
        slots.len(),
        |j: int|
            if j == i {
                BufferInfo { freshness: 0, occupied: false }
            } else {
                BufferInfo { freshness: aged(slots[j].freshness), occupied: slots[j].occupied }
            },
    )
}

/// A directory of `n` slots in which nothing has been lent out or written yet.
pub open spec fn pristine(n: nat) -> Seq<BufferInfo> {
    Seq::new(n, |j: int| BufferInfo { freshness: 0, occupied: false })
}

/// The indices of the slots that are lent out.
pub open spec fn occupied_set(slots: Seq<BufferInfo>) -> Set<int> {
    Set::new(|i: int| 0 <= i < slots.len() && slots[i].occupied)
}

/// `i` is the reader's choice when only the first `n` slots are considered.
spec fn is_freshest_free_below(slots: Seq<BufferInfo>, n: int, i: int) -> bool {
    &&& is_free(slots, i)
    &&& i < n
    &&& forall|j: int|
        #[trigger] is_free(slots, j) && j < n ==> slots[i].freshness <= slots[j].freshness
    &&& forall|j: int|
        #[trigger] is_free(slots, j) && j < i ==> slots[i].freshness < slots[j].freshness
}

/// `i` is the writer's choice when only the first `n` slots are considered.
spec fn is_stalest_free_below(slots: Seq<BufferInfo>, n: int, i: int) -> bool {
    &&& is_free(slots, i)
    &&& i < n
    &&& forall|j: int|
        #[trigger] is_free(slots, j) && j < n ==> slots[i].freshness >= slots[j].freshness
    &&& forall|j: int|
        #[trigger] is_free(slots, j) && j < i ==> slots[i].freshness > slots[j].freshness
}

/// Slot `i` holds the data written last: its freshness is 0 and that of
/// every other slot is not.
pub open spec fn is_newest(slots: Seq<BufferInfo>, i: int) -> bool {
    &&& 0 <= i < slots.len()
    &&& slots[i].freshness == 0
    &&& forall|j: int| 0 <= j < slots.len() && j != i ==> (#[trigger] slots[j]).freshness > 0
}

/// The reader's choice is one slot and no other.
pub proof fn lemma_freshest_free_is_unique(slots: Seq<BufferInfo>, i: int, j: int)
    requires
        is_freshest_free(slots, i),
        is_freshest_free(slots, j),
    ensures
        i == j,
{
}

/// The writer's choice is one slot and no other.
pub proof fn lemma_stalest_free_is_unique(slots: Seq<BufferInfo>, i: int, j: int)
    requires
        is_stalest_free(slots, i),
        is_stalest_free(slots, j),
    ensures
        i == j,
{
}

proof fn freshest_free_below(slots: Seq<BufferInfo>, n: int) -> (best: Option<int>)
    requires
        0 <= n <= slots.len(),
    ensures
        match best {
            Some(b) => is_freshest_free_below(slots, n, b),
            None => forall|j: int| #[trigger] is_free(slots, j) ==> j >= n,
        },
    decreases n,
{
    if n == 0 {
        None
    } else {
        let before = freshest_free_below(slots, n - 1);
        if slots[n - 1].occupied {
            before
        } else {
            match before {
                Some(b) => if slots[n - 1].freshness < slots[b].freshness {
                    Some(n - 1)
                } else {
                    before
                },
                None => Some(n - 1),
            }
        }
    }
}

proof fn stalest_free_below(slots: Seq<BufferInfo>, n: int) -> (best: Option<int>)
    requires
        0 <= n <= slots.len(),
    ensures
        match best {
            Some(b) => is_stalest_free_below(slots, n, b),
            None => forall|j: int| #[trigger] is_free(slots, j) ==> j >= n,
        },
    decreases n,
{
    if n == 0 {
        None
    } else {
        let before = stalest_free_below(slots, n - 1);
        if slots[n - 1].occupied {
            before
        } else {
            match before {
                Some(b) => if slots[n - 1].freshness > slots[b].freshness {
                    Some(n - 1)
                } else {
                    before
                },
                None => Some(n - 1),
            }
        }
    }
}

/// While a slot is free, a reader and a writer each have a slot to get.
pub proof fn lemma_free_slot_can_be_chosen(slots: Seq<BufferInfo>)
    requires
        has_free(slots),
    ensures
        exists|i: int| is_freshest_free(slots, i),
        exists|i: int| is_stalest_free(slots, i),
{
    let free = choose|i: int| is_free(slots, i);
    assert(is_free(slots, free));
    let reader = freshest_free_below(slots, slots.len() as int);
    let writer = stalest_free_below(slots, slots.len() as int);
    assert(is_freshest_free(slots, reader.unwrap()));
    assert(is_stalest_free(slots, writer.unwrap()));
}

/// A write release makes its slot the one that holds the newest data.
pub proof fn lemma_retired_slot_is_newest(slots: Seq<BufferInfo>, i: int)
    requires
        0 <= i < slots.len(),
    ensures
        is_newest(retire(slots, i), i),
{
}

/// The slot that holds the newest data is the reader's choice whenever it is
/// free.
pub proof fn lemma_reader_gets_newest(slots: Seq<BufferInfo>, i: int)
    requires
        is_newest(slots, i),
        is_free(slots, i),
    ensures
        is_freshest_free(slots, i),
{
}

/// The slot that holds the newest data is the last that a writer gets: it is
/// the writer's choice only where no other slot is free.
pub proof fn lemma_writer_spares_newest(slots: Seq<BufferInfo>, i: int)
    requires
        is_newest(slots, i),
        is_stalest_free(slots, i),
    ensures
        forall|j: int| is_free(slots, j) ==> j == i,
{
}

/// Lending a slot out and taking it back from a reader leaves the directory
/// as it was: reading does not change the age of any data.
pub proof fn lemma_read_leaves_no_trace(slots: Seq<BufferInfo>, i: int)
    requires
        is_free(slots, i),
    ensures
        vacate(occupy(slots, i), i) == slots,
{
    assert(vacate(occupy(slots, i), i) =~= slots);
}

/// The metadata of all slots of a pool, in slot order.
pub struct SlotDirectory {
    slots: Vec<BufferInfo>,
}

impl View for SlotDirectory {
    type V = Seq<BufferInfo>;

    closed spec fn view(&self) -> Seq<BufferInfo> {
        self.slots@
    }
}

impl SlotDirectory {
    /// A directory of `slot_count` free slots, all of freshness 0.
    pub fn new(slot_count: usize) -> (directory: SlotDirectory)
        ensures
            directory@ == pristine(slot_count as nat),
    {
        let mut slots: Vec<BufferInfo> = Vec::with_capacity(slot_count);
        let mut k: usize = 0;
        while k < slot_count
            invariant
                k <= slot_count,
                slots@ == pristine(k as nat),
            decreases slot_count - k,
        {
            slots.push(BufferInfo { freshness: 0, occupied: false });
            k += 1;
        }
        SlotDirectory { slots }
    }

    /// A directory that holds `slots` as they are.
    pub fn from_slots(slots: Vec<BufferInfo>) -> (directory: SlotDirectory)
        ensures
            directory@ == slots@,
    {
        SlotDirectory { slots }
    }

    /// The number of slots.
    pub fn len(&self) -> (n: usize)
        ensures
            n == self@.len(),
    {
        self.slots.len()
    }

    /// The metadata of slot `index`, or `None` where there is no such slot.
    pub fn get(&self, index: usize) -> (info: Option<BufferInfo>)
        ensures
            info == if index < self@.len() {
                Some(self@[index as int])
            } else {
                None
            },
    {
        if index < self.slots.len() {
            Some(self.slots[index])
        } else {
            None
        }
    }

    /// The free slot with the smallest freshness, the first of them on a tie.
    fn freshest_free(&self) -> (chosen: Option<usize>)
        ensures
            match chosen {
                Some(i) => is_freshest_free(self@, i as int),
                None => !has_free(self@),
            },
    {
        let mut best: Option<usize> = None;
        let mut k: usize = 0;
        while k < self.slots.len()
            invariant
                k <= self.slots.len(),
                match best {
                    Some(b) => is_freshest_free_below(self@, k as int, b as int),
                    None => forall|j: int| #[trigger] is_free(self@, j) ==> j >= k,
                },
            decreases self.slots.len() - k,
        {
            let info = self.slots[k];
            if !info.occupied {
                match best {
                    Some(b) => {
                        if info.freshness < self.slots[b].freshness {
                            best = Some(k);
                        }
                    },
                    None => {
                        best = Some(k);
                    },
                }
            }
            k += 1;
        }
        best
    }

    /// The free slot with the largest freshness, the first of them on a tie.
    fn stalest_free(&self) -> (chosen: Option<usize>)
        ensures
            match chosen {
                Some(i) => is_stalest_free(self@, i as int),
                None => !has_free(self@),
            },
    {
        let mut best: Option<usize> = None;
        let mut k: usize = 0;
        while k < self.slots.len()
            invariant
                k <= self.slots.len(),
                match best {
                    Some(b) => is_stalest_free_below(self@, k as int, b as int),
                    None => forall|j: int| #[trigger] is_free(self@, j) ==> j >= k,
                },
            decreases self.slots.len() - k,
        {
            let info = self.slots[k];
            if !info.occupied {
                match best {
                    Some(b) => {
                        if info.freshness > self.slots[b].freshness {
                            best = Some(k);
                        }
                    },
                    None => {
                        best = Some(k);
                    },
                }
            }
            k += 1;
        }
        best
    }

    /// Lends out the slot a reader should get: the free slot written most
    /// recently. Returns `None`, and changes nothing, when every slot is lent
    /// out.
    pub fn choose_for_read(&mut self) -> (chosen: Option<usize>)
        ensures
            match chosen {
                Some(i) => is_freshest_free(old(self)@, i as int) && final(self)@ == occupy(
                    old(self)@,
                    i as int,
                ),
                None => !has_free(old(self)@) && final(self)@ == old(self)@,
            },
    {
        let chosen = self.freshest_free();
        if let Some(i) = chosen {
            let freshness = self.slots[i].freshness;
            self.slots.set(i, BufferInfo { freshness, occupied: true });
        }
        chosen
    }

    /// Lends out the slot a writer should get: the free slot written longest
    /// ago. Returns `None`, and changes nothing, when every slot is lent out.
    pub fn choose_for_write(&mut self) -> (chosen: Option<usize>)
        ensures
            match chosen {
                Some(i) => is_stalest_free(old(self)@, i as int) && final(self)@ == occupy(
                    old(self)@,
                    i as int,
                ),
                None => !has_free(old(self)@) && final(self)@ == old(self)@,
            },
    {
        let chosen = self.stalest_free();
        if let Some(i) = chosen {
            let freshness = self.slots[i].freshness;
            self.slots.set(i, BufferInfo { freshness, occupied: true });
        }
        chosen
    }

    /// Lends out the slot a reader should get, where the caller knows that a
    /// slot is free: the free slot written most recently.
    pub fn choose_free_for_read(&mut self) -> (chosen: usize)
        requires
            has_free(old(self)@),
        ensures
            is_freshest_free(old(self)@, chosen as int),
            final(self)@ == occupy(old(self)@, chosen as int),
    {
        self.choose_for_read().unwrap()
    }

    /// Lends out the slot a writer should get, where the caller knows that a
    /// slot is free: the free slot written longest ago.
    pub fn choose_free_for_write(&mut self) -> (chosen: usize)
        requires
            has_free(old(self)@),
        ensures
            is_stalest_free(old(self)@, chosen as int),
            final(self)@ == occupy(old(self)@, chosen as int),
    {
        self.choose_for_write().unwrap()
    }

    /// Lends out the slot a reader should get, for a pool of `slot_count`
    /// slots. A directory that does not have that many slots lends out
    /// nothing: its indices would not name the slots of that pool.
    pub fn choose_for_read_among(&mut self, slot_count: usize) -> (chosen: Option<usize>)
        ensures
            match chosen {
                Some(i) => {
                    &&& old(self)@.len() == slot_count
                    &&& is_freshest_free(old(self)@, i as int)
                    &&& final(self)@ == occupy(old(self)@, i as int)
                },
                None => {
                    &&& old(self)@.len() != slot_count || !has_free(old(self)@)
                    &&& final(self)@ == old(self)@
                },
            },
    {
        if self.slots.len() != slot_count {
            return None;
        }
        self.choose_for_read()
    }

    /// Lends out the slot a writer should get, for a pool of `slot_count`
    /// slots. A directory that does not have that many slots lends out
    /// nothing: its indices would not name the slots of that pool.
    pub fn choose_for_write_among(&mut self, slot_count: usize) -> (chosen: Option<usize>)
        ensures
            match chosen {
                Some(i) => {
                    &&& old(self)@.len() == slot_count
                    &&& is_stalest_free(old(self)@, i as int)
                    &&& final(self)@ == occupy(old(self)@, i as int)
                },
                None => {
                    &&& old(self)@.len() != slot_count || !has_free(old(self)@)
                    &&& final(self)@ == old(self)@
                },
            },
    {
        if self.slots.len() != slot_count {
            return None;
        }
        self.choose_for_write()
    }

    /// Takes slot `index` back from a reader. Its freshness stays as it is:
    /// reading does not change the age of the data.
    pub fn release_read(&mut self, index: usize)
        requires
            index < old(self)@.len(),
        ensures
            final(self)@ == vacate(old(self)@, index as int),
    {
        let freshness = self.slots[index].freshness;
        self.slots.set(index, BufferInfo { freshness, occupied: false });
    }

    /// Takes slot `index` back from a writer: the slot becomes the freshest,
    /// and every other slot one write release older.
    pub fn release_write(&mut self, index: usize)
        requires
            index < old(self)@.len(),
        ensures
            final(self)@ == retire(old(self)@, index as int),
            final(self)@.len() == old(self)@.len(),
            final(self)@[index as int] == (BufferInfo { freshness: 0, occupied: false }),
            forall|j: int|
                0 <= j < old(self)@.len() && j != index ==> {
                    &&& (#[trigger] final(self)@[j]).occupied == old(self)@[j].occupied
                    &&& old(self)@[j].freshness < usize::MAX ==> final(self)@[j].freshness == old(
                        self,
                    )@[j].freshness + 1
                },
    {
        let n = self.slots.len();
        let mut k: usize = 0;
        while k < n
            invariant
                k <= n,
                index < n,
                n == self.slots@.len(),
                n == old(self)@.len(),
                forall|j: int| 0 <= j < k ==> self.slots@[j] == retire(old(self)@, index as int)[j],
                forall|j: int| k <= j < n ==> self.slots@[j] == old(self)@[j],
            decreases n - k,
        {
            let info = self.slots[k];
            if k == index {
                self.slots.set(k, BufferInfo { freshness: 0, occupied: false });
            } else {
                let freshness = if info.freshness < usize::MAX {
                    info.freshness + 1
                } else {
                    info.freshness
                };
                self.slots.set(k, BufferInfo { freshness, occupied: info.occupied });
            }
            k += 1;
        }
    }
}

} // verus!
