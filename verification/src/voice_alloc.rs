//! Voice allocation for stacking monophonic engines into a polyphonic
//! instrument: each slot is free or owned by a MIDI note, and carries the
//! allocation stamp of its last note-on. A note-on takes the first free slot,
//! or steals the oldest one; a note-off frees every slot the note owns.

use vstd::prelude::*;

verus! {

/// The allocator's bookkeeping as plain values.
pub struct AllocState {
    /// The note owning each slot, `None` when free.
    pub notes: Seq<Option<u8>>,
    /// Each slot's allocation stamp.
    pub ages: Seq<u64>,
    /// The allocation clock.
    pub clock: int,
}

/// The first free slot, if any.
pub open spec fn first_free(notes: Seq<Option<u8>>, i: int) -> bool {
    &&& 0 <= i < notes.len()
    &&& notes[i] is None
    &&& forall|j: int| 0 <= j < i ==> #[trigger] notes[j] is Some
}

/// The first of the slots with the smallest stamp.
pub open spec fn first_oldest(ages: Seq<u64>, i: int) -> bool {
    &&& 0 <= i < ages.len()
    &&& forall|j: int| 0 <= j < ages.len() ==> ages[i] <= #[trigger] ages[j]
    &&& forall|j: int| 0 <= j < i ==> ages[i] < #[trigger] ages[j]
}

/// The slot a note-on takes: the first free one, else the first oldest.
pub open spec fn chosen_slot(s: AllocState, i: int) -> bool {
    if exists|j: int| 0 <= j < s.notes.len() && #[trigger] s.notes[j] is None {
        first_free(s.notes, i)
    } else {
        first_oldest(s.ages, i)
    }
}

/// The slots among the first `k` that `note` owns, in slot order.
pub open spec fn owned_prefix(notes: Seq<Option<u8>>, note: u8, k: nat) -> Seq<usize>
    decreases k,
{
    if k == 0 {
        Seq::empty()
    } else {
        owned_prefix(notes, note, (k - 1) as nat) + if notes[k - 1] == Some(note) {
            seq![(k - 1) as usize]
        } else {
            Seq::empty()
        }
    }
}

/// Slot bookkeeping for a pool of voices.
pub struct SlotAllocator {
    notes: Vec<Option<u8>>,
    ages: Vec<u64>,
    clock: u64,
}

impl View for SlotAllocator {
    type V = AllocState;

    closed spec fn view(&self) -> AllocState {
        AllocState { notes: self.notes@, ages: self.ages@, clock: self.clock as int }
    }
}

/// The bookkeeping's shape: one stamp per slot, and at least one slot.
pub open spec fn alloc_wf(s: AllocState) -> bool {
    &&& s.notes.len() == s.ages.len()
    &&& s.notes.len() >= 1
}

impl SlotAllocator {
    /// A pool of `n` slots (at least one), all free, clock at zero.
    pub fn new(n: usize) -> (a: SlotAllocator)
        ensures
            a@.notes.len() == (if n == 0 {
                1
            } else {
                n as int
            }),
            a@.ages.len() == a@.notes.len(),
            forall|j: int| 0 <= j < a@.notes.len() ==> #[trigger] a@.notes[j] is None,
            forall|j: int| 0 <= j < a@.ages.len() ==> #[trigger] a@.ages[j] == 0,
            a@.clock == 0,
            alloc_wf(a@),
    {
        let count = if n == 0 {
            1
        } else {
            n
        };
        let mut notes: Vec<Option<u8>> = Vec::new();
        let mut ages: Vec<u64> = Vec::new();
        let mut i: usize = 0;
        while i < count
            invariant
                i <= count,
                notes@.len() == i,
                ages@.len() == i,
                forall|j: int| 0 <= j < i ==> #[trigger] notes@[j] is None,
                forall|j: int| 0 <= j < i ==> #[trigger] ages@[j] == 0,
            decreases count - i,
        {
            notes.push(None);
            ages.push(0);
            i = i + 1;
        }
        SlotAllocator { notes, ages, clock: 0 }
    }

    /// Number of slots.
    pub fn slot_count(&self) -> (n: usize)
        ensures
            n == self@.notes.len(),
    {
        self.notes.len()
    }

    /// The note owning slot `i` (`None` when free).
    pub fn slot_note(&self, i: usize) -> (r: Option<u8>)
        requires
            i < self@.notes.len(),
        ensures
            r == self@.notes[i as int],
    {
        self.notes[i]
    }

    /// Allocate a slot for `note`: the first free slot, or the oldest when
    /// every slot is taken. The slot is stamped with the advanced clock.
    pub fn note_on(&mut self, note: u8) -> (r: usize)
        requires
            alloc_wf(old(self)@),
            old(self)@.clock < u64::MAX,
        ensures
            alloc_wf(final(self)@),
            chosen_slot(old(self)@, r as int),
            final(self)@.clock == old(self)@.clock + 1,
            final(self)@.notes == old(self)@.notes.update(r as int, Some(note)),
            final(self)@.ages == old(self)@.ages.update(r as int, (old(self)@.clock + 1) as u64),
    {
        self.clock = self.clock + 1;
        let n = self.notes.len();
        let mut free: Option<usize> = None;
        let mut i: usize = 0;
        while i < n
            invariant
                n == self.notes@.len(),
                i <= n,
                free is None ==> forall|j: int| 0 <= j < i ==> #[trigger] self.notes@[j] is Some,
                free matches Some(f) ==> first_free(self.notes@, f as int),
            decreases n - i,
        {
            if free.is_none() && self.notes[i].is_none() {
                free = Some(i);
            }
            i = i + 1;
        }
        let idx = match free {
            Some(f) => f,
            None => {
                let mut best: usize = 0;
                let mut best_age: u64 = self.ages[0];
                let mut k: usize = 1;
                while k < n
                    invariant
                        n == self.ages@.len(),
                        1 <= k <= n,
                        best < k,
                        best_age == self.ages@[best as int],
                        forall|j: int| 0 <= j < k ==> best_age <= #[trigger] self.ages@[j],
                        forall|j: int| 0 <= j < best ==> best_age < #[trigger] self.ages@[j],
                    decreases n - k,
                {
                    if self.ages[k] < best_age {
                        best_age = self.ages[k];
                        best = k;
                    }
                    k = k + 1;
                }
                best
            },
        };
        let c = self.clock;
        self.notes.set(idx, Some(note));
        self.ages.set(idx, c);
        idx
    }

    /// Free every slot that `note` owns, returning those slots in order.
    pub fn note_off(&mut self, note: u8) -> (r: Vec<usize>)
        requires
            alloc_wf(old(self)@),
        ensures
            alloc_wf(final(self)@),
            r@ == owned_prefix(old(self)@.notes, note, old(self)@.notes.len()),
            final(self)@.notes.len() == old(self)@.notes.len(),
            forall|j: int|
                0 <= j < old(self)@.notes.len() ==> #[trigger] final(self)@.notes[j] == (if old(
                    self,
                )@.notes[j] == Some(note) {
                    None
                } else {
                    old(self)@.notes[j]
                }),
            final(self)@.ages == old(self)@.ages,
            final(self)@.clock == old(self)@.clock,
    {
        let ghost old_notes = self.notes@;
        let n = self.notes.len();
        let mut out: Vec<usize> = Vec::new();
        let mut i: usize = 0;
        while i < n
            invariant
                n == old_notes.len(),
                self.notes@.len() == n,
                self.ages@ == old(self).ages@,
                self.clock == old(self).clock,
                i <= n,
                out@ == owned_prefix(old_notes, note, i as nat),
                forall|j: int|
                    0 <= j < i ==> #[trigger] self.notes@[j] == (if old_notes[j] == Some(note) {
                        None
                    } else {
                        old_notes[j]
                    }),
                forall|j: int| i <= j < n ==> #[trigger] self.notes@[j] == old_notes[j],
            decreases n - i,
        {
            if self.notes[i] == Some(note) {
                self.notes.set(i, None);
                out.push(i);
            }
            i = i + 1;
        }
        out
    }
}

/// After a note-off, the note owns no slot.
pub proof fn lemma_note_off_frees_note(before: Seq<Option<u8>>, after: Seq<Option<u8>>, note: u8)
    requires
        after.len() == before.len(),
        forall|j: int|
            0 <= j < before.len() ==> #[trigger] after[j] == (if before[j] == Some(note) {
                None
            } else {
                before[j]
            }),
    ensures
        forall|j: int| 0 <= j < after.len() ==> #[trigger] after[j] != Some(note),
{
}

/// A note-on always lands on a free slot when one exists, and steals only
/// when every slot is taken.
pub proof fn lemma_free_slot_preferred(s: AllocState, i: int)
    requires
        chosen_slot(s, i),
        exists|j: int| 0 <= j < s.notes.len() && #[trigger] s.notes[j] is None,
    ensures
        s.notes[i] is None,
{
}

} // verus!
