//! A set of cores as the system calls of Linux and FreeBSD take it: one bit for each core.

use crate::affinity::{cores_below, CoreId};
use vstd::prelude::*;

verus! {

/// A set of cores, in words of 64 bits, lowest first.
pub struct CpuSet {
    pub words: Vec<u64>,
}

/// Bit `i` of `word` is set.
pub open spec fn bit_of(word: u64, i: int) -> bool {
    word & (1u64 << (i as u64)) != 0
}

impl View for CpuSet {
    type V = Set<int>;

    open spec fn view(&self) -> Set<int> {
        Set::new(|i: int| 0 <= i < self.size() && bit_of(self.words@[i / 64], i % 64))
    }
}

impl CpuSet {
    /// The cores that the set has bits for can be numbered.
    pub open spec fn wf(self) -> bool {
        self.words@.len() * 64 <= usize::MAX
    }

    /// How many cores the set has bits for.
    pub open spec fn size(self) -> nat {
        self.words@.len() * 64
    }

    /// The empty set of `words` words.
    pub fn new_cpu_set(words: usize) -> (set: CpuSet)
        requires
            words * 64 <= usize::MAX,
        ensures
            set.wf(),
            set.words@.len() == words,
            set@ == Set::<int>::empty(),
    {
        let mut list: Vec<u64> = Vec::new();
        let mut made: usize = 0;
        while made < words
            invariant
                made <= words,
                list@.len() == made,
                forall|w: int| 0 <= w < made ==> #[trigger] list@[w] == 0,
            decreases words - made,
        {
            list.push(0);
            made = made + 1;
        }
        let set = CpuSet { words: list };
        proof {
            assert forall|i: int| !#[trigger] set@.contains(i) by {
                if 0 <= i < set.size() {
                    let b: u64 = (i % 64) as u64;
                    assert(0u64 & (1u64 << b) == 0) by (bit_vector);
                    assert(set.words@[i / 64] == 0);
                }
            }
            assert(set@ =~= Set::<int>::empty());
        }
        set
    }

    /// Whether the set holds core `cpu`.
    pub fn is_set(&self, cpu: usize) -> (set: bool)
        requires
            self.wf(),
            cpu < self.size(),
        ensures
            set == self@.contains(cpu as int),
    {
        let word: u64 = self.words[cpu / 64];
        let offset: u64 = (cpu % 64) as u64;
        word & (1u64 << offset) != 0
    }

    /// Adds core `cpu` to the set.
    pub fn set(&mut self, cpu: usize)
        requires
            old(self).wf(),
            cpu < old(self).size(),
        ensures
            final(self).wf(),
            final(self).words@.len() == old(self).words@.len(),
            final(self)@ == old(self)@.insert(cpu as int),
    {
        let index: usize = cpu / 64;
        let offset: u64 = (cpu % 64) as u64;
        let word: u64 = self.words[index];
        let marked: u64 = word | (1u64 << offset);
        self.words[index] = marked;
        proof {
            assert forall|i: int| #[trigger] self@.contains(i) == old(self)@.insert(
                cpu as int,
            ).contains(i) by {
                if 0 <= i < self.size() && i / 64 == index {
                    let b: u64 = (i % 64) as u64;
                    assert((marked & (1u64 << b) != 0) == (word & (1u64 << b) != 0 || b == offset))
                        by (bit_vector)
                        requires
                            marked == word | (1u64 << offset),
                            b < 64,
                            offset < 64,
                    ;
                }
            }
            assert(self@ =~= old(self)@.insert(cpu as int));
        }
    }

    /// The cores in the set, in ascending order.
    pub fn core_ids(&self) -> (ids: Vec<CoreId>)
        requires
            self.wf(),
        ensures
            ids@ == cores_below(|i: int| self@.contains(i), self.size()),
    {
        let ghost allowed = |i: int| self@.contains(i);
        let size: usize = self.words.len() * 64;
        let mut ids: Vec<CoreId> = Vec::new();
        let mut i: usize = 0;
        while i < size
            invariant
                self.wf(),
                size == self.size(),
                i <= size,
                allowed == |i: int| self@.contains(i),
                ids@ == cores_below(allowed, i as nat),
            decreases size - i,
        {
            if self.is_set(i) {
                ids.push(CoreId { id: i });
            }
            i = i + 1;
        }
        ids
    }
}

} // verus!
