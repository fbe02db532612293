//! The wheel: a register of fixed length that turns under a read head.

use crate::entropy::random_bit;
use crate::rotation::{
    lemma_turn_by_full_round, lemma_turn_by_head, lemma_turn_by_index, lemma_turn_by_is_cut,
    lemma_turn_by_multiset, turn, turn_by,
};
use core::ops::{Deref, DerefMut};
use rand::rngs::StdRng;
use vstd::prelude::*;

verus! {

/// A circular register of `N` elements with a read head.
///
/// The elements never move in storage: a turn advances the pointer to the
/// head, which costs the same whatever `N` is.
pub struct Wheel<const N: usize, T> {
    list: [T; N],
    list_pointer: usize,
}

impl<const N: usize, T: Copy + Default> Wheel<N, T> {
    /// The pointer names a stored element (or is zero on a wheel without any).
    pub closed spec fn wf(&self) -> bool {
        self.list_pointer < N || self.list_pointer == 0
    }

    /// The elements from the head onwards, once round the wheel.
    pub closed spec fn view(&self) -> Seq<T> {
        self.list@.subrange(self.list_pointer as int, N as int) + self.list@.subrange(
            0,
            self.list_pointer as int,
        )
    }

    /// A well-formed wheel holds exactly `N` elements.
    pub proof fn lemma_holds_n_elements(&self)
        requires
            self.wf(),
        ensures
            self@.len() == N,
    {
    }

    /// A wheel that has been stepped `steps` times since it was `start` is
    /// `start` rotated: it holds the same elements, each as often as before;
    /// its head is the element that stood `steps mod N` places after the old
    /// head; and after exactly `N` steps it is as it was.
    pub proof fn lemma_after_steps(&self, start: Self, steps: nat)
        requires
            N > 0,
            start.wf(),
            self@ == turn_by(start@, steps),
        ensures
            self@.len() == N,
            self@.to_multiset() == start@.to_multiset(),
            self@ == start@.subrange((steps % (N as nat)) as int, N as int) + start@.subrange(
                0,
                (steps % (N as nat)) as int,
            ),
            self@[0] == start@[(steps % (N as nat)) as int],
            steps == N ==> self@ == start@,
    {
        start.lemma_holds_n_elements();
        lemma_turn_by_index(start@, steps);
        lemma_turn_by_multiset(start@, steps);
        lemma_turn_by_is_cut(start@, steps);
        lemma_turn_by_head(start@, steps);
        if steps == N {
            lemma_turn_by_full_round(start@);
        }
    }

    /// A wheel on which every element is the default of its type.
    pub fn new_default() -> (wheel: Self)
        ensures
            wheel.wf(),
            wheel@.len() == N,
            forall|i: int| 0 <= i < N ==> call_ensures(T::default, (), #[trigger] wheel@[i]),
            forall|i: int, j: int| 0 <= i < N && 0 <= j < N ==> wheel@[i] == wheel@[j],
    {
        let blank = T::default();
        Wheel { list: [blank; N], list_pointer: 0 }
    }

    /// A wheel that holds `list`, its head on the first element.
    pub fn from_array(list: [T; N]) -> (wheel: Self)
        ensures
            wheel.wf(),
            wheel@ == list@,
    {
        let wheel = Wheel { list, list_pointer: 0 };
        assert(wheel@ =~= list@);
        wheel
    }

    /// Turns the wheel by one place.
    pub fn step_clockwise(&mut self)
        requires
            old(self).wf(),
        ensures
            final(self).wf(),
            final(self)@ == turn(old(self)@),
    {
        self.list_pointer += 1;
        if self.list_pointer >= N {
            self.list_pointer = 0;
        }
        assert(self@ =~= turn(old(self)@));
    }

    /// The element under the head.
    pub fn read_head(&self) -> (head: T)
        requires
            self.wf(),
            N > 0,
        ensures
            head == self@[0],
    {
        self.list[self.list_pointer]
    }

    /// The whole wheel, from the head onwards.
    pub fn as_array(&self) -> (out: [T; N])
        requires
            self.wf(),
        ensures
            out@ == self@,
    {
        let mut out = [T::default();N];
        let ahead: usize = N - self.list_pointer;
        let mut i: usize = 0;
        while i < N
            invariant
                self.wf(),
                i <= N,
                ahead == N - self.list_pointer,
                forall|j: int| 0 <= j < i ==> out@[j] == self@[j],
            decreases N - i,
        {
            let from: usize = if i < ahead { self.list_pointer + i } else { i - ahead };
            out[i] = self.list[from];
            i += 1;
        }
        assert(out@ =~= self@);
        out
    }
}

impl<const N: usize> Wheel<N, bool> {
    /// A wheel of `N` bits drawn one after another from `rng`.
    pub fn new_random(rng: &mut StdRng) -> (wheel: Self)
        ensures
            wheel.wf(),
            wheel@.len() == N,
    {
        let mut list = [false;N];
        let mut i: usize = 0;
        while i < N
            invariant
                i <= N,
            decreases N - i,
        {
            list[i] = random_bit(rng);
            i += 1;
        }
        Wheel::from_array(list)
    }
}

/// A wheel of the cipher machine: `N` bits, each a pin that is set or not.
/// It is read and turned as the register inside it.
pub struct LorenzWheel<const N: usize>(Wheel<N, bool>);

impl<const N: usize> Deref for LorenzWheel<N> {
    type Target = Wheel<N, bool>;

    fn deref(&self) -> (register: &Self::Target)
        ensures
            *register == self.register(),
    {
        &self.0
    }
}

impl<const N: usize> DerefMut for LorenzWheel<N> {
    fn deref_mut(&mut self) -> (register: &mut Self::Target)
        ensures
            *register == old(self).register(),
            final(self).register() == *final(register),
    {
        &mut self.0
    }
}

impl<const N: usize> LorenzWheel<N> {
    /// The register inside the wheel.
    pub closed spec fn register(&self) -> Wheel<N, bool> {
        self.0
    }

    /// The register is well formed and holds its `N` pins.
    pub open spec fn wf(&self) -> bool {
        self.register().wf() && self.register()@.len() == N
    }

    /// The pins from the head onwards, once round the wheel.
    pub open spec fn view(&self) -> Seq<bool> {
        self.register()@
    }

    /// A wheel with no pin set.
    pub fn new_zeroed() -> (wheel: Self)
        ensures
            wheel.wf(),
            wheel@ == Seq::new(N as nat, |i: int| false),
    {
        let wheel = LorenzWheel(Wheel::new_default());
        assert(wheel@ =~= Seq::new(N as nat, |i: int| false));
        wheel
    }

    /// A wheel whose pins are drawn from `rng`.
    pub fn new_random(rng: &mut StdRng) -> (wheel: Self)
        ensures
            wheel.wf(),
    {
        LorenzWheel(Wheel::new_random(rng))
    }

    /// A wheel with the given pins, its head on the first.
    pub fn from_bits(bits: [bool; N]) -> (wheel: Self)
        ensures
            wheel.wf(),
            wheel@ == bits@,
    {
        LorenzWheel(Wheel::from_array(bits))
    }
}

} // verus!
