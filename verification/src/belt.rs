//! The belt register file: a fixed-capacity rotating buffer of 16-bit words.
//!
//! The belt is always full. Pushing moves the logical head back one slot and
//! overwrites it, evicting the oldest value; peeking addresses slots by age,
//! 0 being the most recent, with indices wrapping modulo the capacity.

use vstd::prelude::*;

verus! {

/// The number of slots on the belt.
pub const BELT_SIZE: usize = 16;

/// The rotating register file. Its view is the logical content: element 0 is
/// the most recently pushed value, element `BELT_SIZE - 1` the oldest.
#[derive(Debug)]
pub struct Belt {
    start: usize,
    belt: Vec<u16>,
}

/// The logical content after a push: the new value in front, every other
/// value one slot older, the oldest value gone.
pub open spec fn pushed(b: Seq<u16>, value: u16) -> Seq<u16> {
    seq![value] + b.drop_last()
}

impl View for Belt {
    type V = Seq<u16>;

    closed spec fn view(&self) -> Seq<u16> {
        Seq::new(
            BELT_SIZE as nat,
            |i: int| self.belt@[(self.start + i) % (BELT_SIZE as int)],
        )
    }
}

impl Belt {
    /// The structural invariant: exactly `BELT_SIZE` backing slots, and the
    /// head index within them.
    pub closed spec fn wf(&self) -> bool {
        &&& self.belt@.len() == BELT_SIZE
        &&& self.start < BELT_SIZE
    }

    /// A well-formed belt's view has exactly `BELT_SIZE` elements.
    pub proof fn lemma_view_len(&self)
        requires
            self.wf(),
        ensures
            self@.len() == BELT_SIZE,
    {
    }

    /// A belt whose slots hold the given values, the head at the first.
    pub fn with_state(belt: [u16; 16]) -> (r: Belt)
        ensures
            r.wf(),
            r@ == belt@,
    {
        let mut slots: Vec<u16> = Vec::new();
        let mut i: usize = 0;
        while i < 16
            invariant
                i <= 16,
                slots@.len() == i,
                forall|j: int| 0 <= j < i ==> slots@[j] == belt@[j],
            decreases 16 - i,
        {
            slots.push(belt[i]);
            i = i + 1;
        }
        let r = Belt { start: 0, belt: slots };
        proof {
            assert(r@ =~= belt@);
        }
        r
    }

    /// Push a value: the head moves back one slot (wrapping) and the value
    /// overwrites it, evicting the oldest value.
    pub fn push_belt(&mut self, value: u16)
        requires
            old(self).wf(),
        ensures
            final(self).wf(),
            final(self)@ == pushed(old(self)@, value),
    {
        if self.start == 0 {
            self.start = BELT_SIZE - 1;
        } else {
            self.start = self.start - 1;
        }
        self.belt[self.start] = value;
        proof {
            assert(self@ =~= pushed(old(self)@, value));
        }
    }

    /// Read the value pushed `pos` steps ago, 0 being the most recent.
    /// Indices at or beyond the capacity wrap modulo `BELT_SIZE`.
    pub fn peek_belt(&self, pos: usize) -> (r: &u16)
        requires
            self.wf(),
        ensures
            *r == self@[(pos % BELT_SIZE) as int],
    {
        let idx = (self.start + pos % BELT_SIZE) % BELT_SIZE;
        &self.belt[idx]
    }
}

impl Default for Belt {
    /// A belt of all zeroes.
    fn default() -> (r: Belt)
        ensures
            r.wf(),
            r@ == Seq::new(BELT_SIZE as nat, |i: int| 0u16),
    {
        Belt::with_state([0u16; 16])
    }
}

/// The content after pushing each element of `vs` in order onto `b`.
pub open spec fn pushed_all(b: Seq<u16>, vs: Seq<u16>) -> Seq<u16>
    decreases vs.len(),
{
    if vs.len() == 0 {
        b
    } else {
        pushed(pushed_all(b, vs.drop_last()), vs.last())
    }
}

/// Belt rotation. After pushing `v0, ..., v(k-1)` in order onto a belt that
/// held `b`, slot `i` holds `v(k-1-i)` for `i < k`: the most recent value is
/// at slot 0, earlier pushes at increasing ages. Beyond those, slot `i`
/// holds the old value `b[i - k]`: each push evicts exactly the oldest
/// value. (For `k` beyond the capacity only the last `BELT_SIZE` pushes
/// remain visible, as every slot index is below `BELT_SIZE`.)
pub proof fn lemma_belt_rotation(b: Seq<u16>, vs: Seq<u16>, i: int)
    requires
        b.len() == BELT_SIZE,
        0 <= i < BELT_SIZE,
    ensures
        i < vs.len() ==> pushed_all(b, vs)[i] == vs[vs.len() - 1 - i],
        vs.len() <= i ==> pushed_all(b, vs)[i] == b[i - vs.len()],
        pushed_all(b, vs).len() == BELT_SIZE,
    decreases vs.len(),
{
    if vs.len() > 0 {
        lemma_belt_rotation(b, vs.drop_last(), if i == 0 { i } else { i - 1 });
    }
}

} // verus!
