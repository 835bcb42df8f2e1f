use vstd::prelude::*;

verus! {

/// The number type that a model computes with.
///
/// Each operation is described by a spec function, and the executable
/// operation returns exactly what its spec function gives. The training and
/// prediction contracts are stated over these spec functions, so they fix the
/// exact sequence of operations performed.
pub trait Scalar: Sized + Copy {
    spec fn zero_spec() -> Self;

    spec fn add_spec(self, o: Self) -> Self;

    spec fn sub_spec(self, o: Self) -> Self;

    spec fn mul_spec(self, o: Self) -> Self;

    /// The value divided by a positive count.
    spec fn div_count_spec(self, n: nat) -> Self;

    spec fn positive_spec(self) -> bool;

    /// The value that a text field stands for, if it stands for one.
    spec fn parse_spec(s: Seq<char>) -> Option<Self>;

    fn zero() -> (r: Self)
        ensures
            r == Self::zero_spec(),
    ;

    fn add(self, o: Self) -> (r: Self)
        ensures
            r == self.add_spec(o),
    ;

    fn sub(self, o: Self) -> (r: Self)
        ensures
            r == self.sub_spec(o),
    ;

    fn mul(self, o: Self) -> (r: Self)
        ensures
            r == self.mul_spec(o),
    ;

    fn div_count(self, n: usize) -> (r: Self)
        requires
            n > 0,
        ensures
            r == self.div_count_spec(n as nat),
    ;

    fn is_positive(self) -> (r: bool)
        ensures
            r == self.positive_spec(),
    ;

    fn parse(s: &str) -> (r: Option<Self>)
        ensures
            r == Self::parse_spec(s@),
    ;
}

} // verus!
