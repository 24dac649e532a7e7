//! Ring buffer of the latest samples of a control, for smoothening and travel
//! distance measurement.
//!
//! The buffer holds samples of any copyable type; averaging them is left to
//! the caller.

use vstd::prelude::*;

verus! {

pub open spec fn spec_is_power_of_2(n: nat) -> bool
    decreases n,
{
    if n == 1 {
        true
    } else if n % 2 != 0 || n == 0 {
        false
    } else {
        spec_is_power_of_2(n / 2)
    }
}

/// Whether `n` is a power of two.
pub fn is_power_of_2(n: usize) -> (power: bool)
    ensures
        power == spec_is_power_of_2(n as nat),
    decreases n,
{
    if n == 1 {
        return true;
    } else if n % 2 != 0 || n == 0 {
        return false;
    }
    is_power_of_2(n / 2)
}

proof fn lemma_power_of_2_single_bit(n: usize)
    requires
        spec_is_power_of_2(n as nat),
    ensures
        n > 0,
        n & ((n - 1) as usize) == 0,
    decreases n,
{
    if n != 1 {
        let m = n / 2;
        lemma_power_of_2_single_bit(m);
        assert(n & ((n - 1) as usize) == 0) by (bit_vector)
            requires
                m > 0,
                m & ((m - 1) as usize) == 0,
                n == 2 * m,
        ;
    } else {
        assert(1usize & ((1usize - 1) as usize) == 0) by (bit_vector);
    }
}

proof fn lemma_mask_below(x: usize, n: usize)
    requires
        n > 0,
        n & ((n - 1) as usize) == 0,
        x < n,
    ensures
        x & ((n - 1) as usize) == x,
{
    assert(x & ((n - 1) as usize) == x) by (bit_vector)
        requires
            n > 0,
            n & ((n - 1) as usize) == 0,
            x < n,
    ;
}

proof fn lemma_slot_arithmetic(pointer: int, n: int)
    requires
        0 <= pointer < n,
    ensures
        (pointer + n - 1) % n == if pointer == 0 { n - 1 } else { pointer - 1 },
        n == 1 ==> (pointer + 2 * n - 2) % n == 0,
        n >= 2 ==> (pointer + 2 * n - 2) % n == if pointer >= 2 { pointer - 2 } else { pointer + n - 2 },
{
    assert((pointer + n - 1) % n == if pointer == 0 { n - 1 } else { pointer - 1 }) by (nonlinear_arith)
        requires
            0 <= pointer < n,
    ;
    assert(n == 1 ==> (pointer + 2 * n - 2) % n == 0) by (nonlinear_arith)
        requires
            0 <= pointer < n,
    ;
    assert(n >= 2 ==> (pointer + 2 * n - 2) % n == if pointer >= 2 { pointer - 2 } else { pointer + n - 2 }) by (nonlinear_arith)
        requires
            0 <= pointer < n,
    ;
}

/// Buffer meant for smoothening and history tracking.
///
/// This is not optimized for large buffers, but should be ok for smoothening
/// and travel distance measuring on input control voltage to up to 32 samples.
#[derive(Debug)]
pub struct Buffer<T, const N: usize> {
    buffer: [T; N],
    pointer: usize,
    mask: usize,
}

impl<T: Copy, const N: usize> Buffer<T, N> {
    /// The samples, indexed by their slot.
    pub closed spec fn samples(&self) -> Seq<T> {
        self.buffer@
    }

    /// The slot the next sample is written to; it holds the oldest sample.
    pub closed spec fn next_slot(&self) -> int {
        self.pointer as int
    }

    pub closed spec fn wf(&self) -> bool {
        &&& spec_is_power_of_2(N as nat)
        &&& self.mask == N - 1
        &&& self.pointer < N
    }

    /// The slot of the newest sample.
    pub open spec fn newest_slot(&self) -> int {
        (self.next_slot() + N - 1) % (N as int)
    }

    /// The slot of the sample written before the newest.
    pub open spec fn previous_slot(&self) -> int {
        (self.next_slot() + 2 * N - 2) % (N as int)
    }

    /// A buffer of `N` copies of `initial`.
    ///
    /// The size of the buffer `N` must be a power of 2.
    pub fn new(initial: T) -> (buffer: Self)
        requires
            spec_is_power_of_2(N as nat),
        ensures
            buffer.wf(),
            buffer.samples() == Seq::new(N as nat, |i: int| initial),
            buffer.next_slot() == 0,
    {
        let size: usize = N;
        proof {
            lemma_power_of_2_single_bit(size);
        }
        let mask = size - 1;
        let buffer = Self { buffer: [initial; N], pointer: 0, mask };
        assert(buffer.buffer@ =~= Seq::new(N as nat, |i: int| initial));
        buffer
    }

    pub fn write(&mut self, value: T)
        requires
            old(self).wf(),
        ensures
            final(self).wf(),
            final(self).samples() == old(self).samples().update(old(self).next_slot(), value),
            final(self).next_slot() == (old(self).next_slot() + 1) % (N as int),
    {
        let size: usize = self.mask + 1;
        proof {
            lemma_power_of_2_single_bit(size);
        }
        self.buffer[self.pointer] = value;
        let next = self.pointer + 1;
        proof {
            if next < size {
                lemma_mask_below(next, size);
            } else {
                assert(next & ((size - 1) as usize) == 0) by (bit_vector)
                    requires
                        next == size,
                        size & ((size - 1) as usize) == 0,
                ;
            }
            assert(next as int % N as int == if next < N { next as int } else { 0 }) by (nonlinear_arith)
                requires
                    next <= N,
                    N > 0,
            ;
        }
        self.pointer = next & self.mask;
    }

    /// The newest sample.
    pub fn read_raw(&self) -> (value: T)
        requires
            self.wf(),
        ensures
            value == self.samples()[self.newest_slot()],
    {
        let newest = if self.pointer == 0 {
            self.mask
        } else {
            self.pointer - 1
        };
        proof {
            lemma_slot_arithmetic(self.pointer as int, N as int);
        }
        self.buffer[newest]
    }

    /// The sample written before the newest.
    pub fn read_previous_raw(&self) -> (value: T)
        requires
            self.wf(),
        ensures
            value == self.samples()[self.previous_slot()],
    {
        let previous = if self.mask == 0 {
            0
        } else if self.pointer >= 2 {
            self.pointer - 2
        } else {
            self.pointer + self.mask - 1
        };
        proof {
            lemma_slot_arithmetic(self.pointer as int, N as int);
        }
        self.buffer[previous]
    }

    /// The oldest sample, the one the next write replaces.
    pub fn read_oldest_raw(&self) -> (value: T)
        requires
            self.wf(),
        ensures
            value == self.samples()[self.next_slot()],
    {
        self.buffer[self.pointer]
    }

    /// All the samples, indexed by their slot.
    pub fn samples_raw(&self) -> (samples: [T; N])
        ensures
            samples@ == self.samples(),
    {
        self.buffer
    }

    /// Sets every sample to `value`.
    pub fn reset(&mut self, value: T)
        requires
            old(self).wf(),
        ensures
            final(self).wf(),
            final(self).samples() == Seq::new(N as nat, |i: int| value),
            final(self).next_slot() == old(self).next_slot(),
    {
        let mut i: usize = 0;
        while i < N
            invariant
                self.wf(),
                self.pointer == old(self).pointer,
                i <= N,
                self.buffer@.len() == N,
                forall|k: int| 0 <= k < i ==> self.buffer@[k] == value,
            decreases N - i,
        {
            self.buffer[i] = value;
            i = i + 1;
        }
        assert(self.buffer@ =~= Seq::new(N as nat, |i: int| value));
    }
}

} // verus!
