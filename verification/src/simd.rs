//! A fixed-width lane vector, the portable stand-in for hardware SIMD types.

use vstd::prelude::*;

verus! {

/// `LANES` values of type `T` processed together.
#[derive(Clone, Copy, Debug, PartialEq)]
pub struct Simd<T, const LANES: usize>([T; LANES]);

impl<T, const LANES: usize> Simd<T, LANES> {
    /// The lanes, in order.
    pub closed spec fn view(&self) -> Seq<T> {
        self.0@
    }
}

impl<T: Copy + Default, const LANES: usize> Simd<T, LANES> {
    /// Every lane holds `value`.
    pub fn splat(value: T) -> (s: Self)
        ensures
            s.view() == Seq::new(LANES as nat, |i: int| value),
    {
        let r = Self([value; LANES]);
        assert(r.view() =~= Seq::new(LANES as nat, |i: int| value));
        r
    }

    /// The first `LANES` values of `slice`, which must hold at least that many.
    pub fn from_slice(slice: &[T]) -> (s: Self)
        requires
            slice@.len() >= LANES,
        ensures
            s.view() == slice@.take(LANES as int),
    {
        let mut data = [T::default(); LANES];
        let mut i: usize = 0;
        while i < LANES
            invariant
                slice@.len() >= LANES,
                i <= LANES,
                data@.len() == LANES,
                forall|k: int| 0 <= k < i ==> data@[k] == slice@[k],
            decreases LANES - i,
        {
            data[i] = slice[i];
            i += 1;
        }
        let r = Self(data);
        assert(r.view() =~= slice@.take(LANES as int));
        r
    }

    /// The lanes of `array`.
    pub fn from_array(array: [T; LANES]) -> (s: Self)
        ensures
            s.view() == array@,
    {
        Self(array)
    }

    /// Writes the lanes over the first `LANES` values of `slice`, which must hold
    /// at least that many; the rest of `slice` is left as it is.
    pub fn write_to_slice(self, slice: &mut [T])
        requires
            old(slice)@.len() >= LANES,
        ensures
            final(slice)@ == self.view() + old(slice)@.skip(LANES as int),
    {
        let mut i: usize = 0;
        while i < LANES
            invariant
                slice@.len() == old(slice)@.len(),
                old(slice)@.len() >= LANES,
                i <= LANES,
                self.0@.len() == LANES,
                forall|k: int| 0 <= k < i ==> slice@[k] == self.0@[k],
                forall|k: int| i <= k < slice@.len() ==> slice@[k] == old(slice)@[k],
            decreases LANES - i,
        {
            slice[i] = self.0[i];
            i += 1;
        }
        assert(slice@ =~= self.view() + old(slice)@.skip(LANES as int));
    }

    /// The lanes as an array.
    pub fn to_array(self) -> (a: [T; LANES])
        ensures
            a@ == self.view(),
    {
        self.0
    }

    /// The lanes as an array reference.
    pub fn as_array(&self) -> (a: &[T; LANES])
        ensures
            a@ == self.view(),
    {
        &self.0
    }
}

} // verus!
