use vstd::prelude::*;

verus! {

/// The real-number arithmetic the spline needs, supplied by the caller's
/// number type.
///
/// Each operation's result is named by a spec function of its operands
/// alone, so the spline routines can state what they compute in terms of
/// these names. `order_key` maps a number to an integer that orders numbers
/// the way they compare; knots are checked and located through those keys.
pub trait Scalar: Copy + Sized {
    spec fn spec_from_i32(k: i32) -> Self;

    spec fn spec_plus(self, o: Self) -> Self;

    spec fn spec_minus(self, o: Self) -> Self;

    spec fn spec_times(self, o: Self) -> Self;

    spec fn spec_over(self, o: Self) -> Self;

    spec fn spec_negated(self) -> Self;

    spec fn spec_negligible(self) -> bool;

    spec fn spec_key(self) -> i64;

    /// The number `k`.
    fn from_i32(k: i32) -> (r: Self)
        ensures
            r == Self::spec_from_i32(k),
    ;

    fn plus(&self, o: &Self) -> (r: Self)
        ensures
            r == self.spec_plus(*o),
    ;

    fn minus(&self, o: &Self) -> (r: Self)
        ensures
            r == self.spec_minus(*o),
    ;

    fn times(&self, o: &Self) -> (r: Self)
        ensures
            r == self.spec_times(*o),
    ;

    fn over(&self, o: &Self) -> (r: Self)
        ensures
            r == self.spec_over(*o),
    ;

    fn negated(&self) -> (r: Self)
        ensures
            r == self.spec_negated(),
    ;

    /// Whether dividing by this number is unsafe (its magnitude is at or
    /// below the smallest normal magnitude of the type).
    fn is_negligible(&self) -> (r: bool)
        ensures
            r == self.spec_negligible(),
    ;

    /// An integer that orders numbers as they compare.
    fn order_key(&self) -> (r: i64)
        ensures
            r == self.spec_key(),
    ;
}

/// The ordering keys of a sequence of numbers.
pub open spec fn keys_of<T: Scalar>(t: Seq<T>) -> Seq<i64> {
    t.map_values(|v: T| v.spec_key())
}

/// `n` copies of the number zero.
pub open spec fn zero_seq<T: Scalar>(n: nat) -> Seq<T> {
    Seq::new(n, |j: int| T::spec_from_i32(0))
}

/// A vector of `n` zeros.
pub fn zeros<T: Scalar>(n: usize) -> (r: Vec<T>)
    ensures
        r@ == zero_seq::<T>(n as nat),
{
    let z = T::from_i32(0);
    let mut r: Vec<T> = Vec::new();
    let mut i: usize = 0;
    while i < n
        invariant
            i <= n,
            z == T::spec_from_i32(0),
            r@ == zero_seq::<T>(i as nat),
        decreases n - i,
    {
        r.push(z);
        i = i + 1;
        assert(r@ =~= zero_seq::<T>(i as nat));
    }
    r
}

/// The ordering keys of the numbers in `t`, one per number.
pub fn order_keys<T: Scalar>(t: &[T]) -> (r: Vec<i64>)
    ensures
        r@ == keys_of(t@),
{
    let mut r: Vec<i64> = Vec::new();
    let mut i: usize = 0;
    while i < t.len()
        invariant
            i <= t@.len(),
            r@ == keys_of(t@.take(i as int)),
        decreases t@.len() - i,
    {
        r.push(t[i].order_key());
        i = i + 1;
        assert(r@ =~= keys_of(t@.take(i as int)));
    }
    assert(t@.take(t@.len() as int) =~= t@);
    r
}

} // verus!
