//! Bank-switched memory: 256 banks of one shape, one of them selected.
use vstd::prelude::*;

verus! {

/// 256 banks of type `T` and the number of the bank that is selected.
///
/// Every access goes to the selected bank. Selecting another bank moves no
/// data: each bank keeps what was last written to it.
pub struct Banker<T> {
    pub content: [T; 256],
    pub pointer: u8,
}

impl<T> Banker<T> {
    /// Bank number `k`.
    pub open spec fn bank(self, k: int) -> T
        recommends
            0 <= k < 256,
    {
        self.content@[k]
    }

    /// The bank that is selected.
    pub open spec fn selected(self) -> T {
        self.content@[self.pointer as int]
    }
}

impl<T: Copy> Banker<T> {
    /// A memory whose 256 banks all hold `content`, with bank 0 selected.
    pub fn new(content: T) -> (banker: Banker<T>)
        ensures
            banker.pointer == 0,
            forall|k: int| 0 <= k < 256 ==> banker.bank(k) == content,
    {
        Banker { content: [content;256], pointer: 0 }
    }
}

impl<const N: usize> Banker<[u8; N]> {
    /// The byte at `index` in the selected bank.
    pub fn get(&self, index: usize) -> (value: u8)
        requires
            index < N,
        ensures
            value == self.selected()@[index as int],
    {
        self.content[self.pointer as usize][index]
    }

    /// Writes `value` at `index` in the selected bank. The other bytes of that
    /// bank, the other banks and the selection stay as they are.
    pub fn set(&mut self, index: usize, value: u8)
        requires
            index < N,
        ensures
            final(self).pointer == old(self).pointer,
            final(self).selected()@ == old(self).selected()@.update(index as int, value),
            forall|k: int|
                0 <= k < 256 && k != old(self).pointer ==> final(self).bank(k) == old(self).bank(k),
    {
        self.content[self.pointer as usize][index] = value;
    }

    /// The bytes from `start` up to `end` in the selected bank.
    pub fn range(&self, start: usize, end: usize) -> (bytes: &[u8])
        requires
            start <= end <= N,
        ensures
            bytes@ == self.selected()@.subrange(start as int, end as int),
    {
        vstd::slice::slice_subrange(self.content[self.pointer as usize].as_slice(), start, end)
    }

    /// Selects bank `pointer`. No bank changes.
    pub fn select(&mut self, pointer: u8)
        ensures
            final(self).pointer == pointer,
            final(self).content == old(self).content,
    {
        self.pointer = pointer;
    }
}

} // verus!
