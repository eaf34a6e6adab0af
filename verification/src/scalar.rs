use vstd::prelude::*;

verus! {

/// The numbers an indicator computes with.
///
/// The trait asks for the operations only and states nothing about them: an
/// indicator's contract says which operation was applied to which operands,
/// through the relations below, and what an implementation promises of its
/// own operations carries over to the indicator's readings. The crate holds
/// no implementation: a caller brings one for its own number type, such as a
/// wrapper around a double.
pub trait Scalar: Copy {
    /// The number zero.
    fn zero() -> Self;

    /// The number that stands for the count `n`.
    fn from_count(n: u64) -> Self;

    /// A value that no other value exceeds.
    fn infinity() -> Self;

    /// A value that exceeds no other value.
    fn neg_infinity() -> Self;

    /// The least finite value.
    fn lowest() -> Self;

    /// The greatest finite value.
    fn highest() -> Self;

    /// The sum `self + rhs`.
    fn plus(self, rhs: Self) -> Self;

    /// The difference `self - rhs`.
    fn minus(self, rhs: Self) -> Self;

    /// The product `self * rhs`.
    fn times(self, rhs: Self) -> Self;

    /// The quotient `self / rhs`. It has to return for a divisor of zero
    /// too: the indicators do not test every divisor.
    fn over(self, rhs: Self) -> Self;

    /// The square root.
    fn root(self) -> Self;

    /// The absolute value.
    fn magnitude(self) -> Self;

    /// Whether `self` is strictly below `rhs`.
    fn less(self, rhs: Self) -> bool;

    /// Whether `self` and `rhs` are the same number.
    fn same(self, rhs: Self) -> bool;

    /// The number as text, for labels.
    fn text(self) -> String;
}

/// `r` is a value that `V::zero()` may return.
pub open spec fn zeroes<V: Scalar>(r: V) -> bool {
    call_ensures(V::zero, (), r)
}

/// `r` is a value that `V::from_count(n)` may return.
pub open spec fn counts<V: Scalar>(n: int, r: V) -> bool {
    0 <= n <= u64::MAX && call_ensures(V::from_count, (n as u64,), r)
}

/// `r` is a value that `V::infinity()` may return.
pub open spec fn tops<V: Scalar>(r: V) -> bool {
    call_ensures(V::infinity, (), r)
}

/// `r` is a value that `V::neg_infinity()` may return.
pub open spec fn bottoms<V: Scalar>(r: V) -> bool {
    call_ensures(V::neg_infinity, (), r)
}

/// `r` is a value that `V::lowest()` may return.
pub open spec fn floors<V: Scalar>(r: V) -> bool {
    call_ensures(V::lowest, (), r)
}

/// `r` is a value that `V::highest()` may return.
pub open spec fn ceilings<V: Scalar>(r: V) -> bool {
    call_ensures(V::highest, (), r)
}

/// `r` is a value that `a.plus(b)` may return.
pub open spec fn adds<V: Scalar>(a: V, b: V, r: V) -> bool {
    call_ensures(V::plus, (a, b), r)
}

/// `r` is a value that `a.minus(b)` may return.
pub open spec fn subtracts<V: Scalar>(a: V, b: V, r: V) -> bool {
    call_ensures(V::minus, (a, b), r)
}

/// `r` is a value that `a.times(b)` may return.
pub open spec fn multiplies<V: Scalar>(a: V, b: V, r: V) -> bool {
    call_ensures(V::times, (a, b), r)
}

/// `r` is a value that `a.over(b)` may return.
pub open spec fn divides<V: Scalar>(a: V, b: V, r: V) -> bool {
    call_ensures(V::over, (a, b), r)
}

/// `r` is a value that `a.root()` may return.
pub open spec fn roots<V: Scalar>(a: V, r: V) -> bool {
    call_ensures(V::root, (a,), r)
}

/// `r` is a value that `a.magnitude()` may return.
pub open spec fn measures<V: Scalar>(a: V, r: V) -> bool {
    call_ensures(V::magnitude, (a,), r)
}

/// `r` is an answer that `a.less(b)` may give.
pub open spec fn orders<V: Scalar>(a: V, b: V, r: bool) -> bool {
    call_ensures(V::less, (a, b), r)
}

/// `r` is an answer that `a.same(b)` may give.
pub open spec fn equates<V: Scalar>(a: V, b: V, r: bool) -> bool {
    call_ensures(V::same, (a, b), r)
}

/// `r` is a text that `a.text()` may return.
pub open spec fn names<V: Scalar>(a: V, r: String) -> bool {
    call_ensures(V::text, (a,), r)
}

/// Every operation of `V` gives one result for one choice of operands.
pub open spec fn deterministic<V: Scalar>() -> bool {
    &&& forall|r: V, s: V| #[trigger] zeroes(r) && #[trigger] zeroes(s) ==> r == s
    &&& forall|n: int, r: V, s: V| #[trigger] counts(n, r) && #[trigger] counts(n, s) ==> r == s
    &&& forall|r: V, s: V| #[trigger] tops(r) && #[trigger] tops(s) ==> r == s
    &&& forall|r: V, s: V| #[trigger] bottoms(r) && #[trigger] bottoms(s) ==> r == s
    &&& forall|r: V, s: V| #[trigger] floors(r) && #[trigger] floors(s) ==> r == s
    &&& forall|r: V, s: V| #[trigger] ceilings(r) && #[trigger] ceilings(s) ==> r == s
    &&& forall|a: V, b: V, r: V, s: V|
        #[trigger] adds(a, b, r) && #[trigger] adds(a, b, s) ==> r == s
    &&& forall|a: V, b: V, r: V, s: V|
        #[trigger] subtracts(a, b, r) && #[trigger] subtracts(a, b, s) ==> r == s
    &&& forall|a: V, b: V, r: V, s: V|
        #[trigger] multiplies(a, b, r) && #[trigger] multiplies(a, b, s) ==> r == s
    &&& forall|a: V, b: V, r: V, s: V|
        #[trigger] divides(a, b, r) && #[trigger] divides(a, b, s) ==> r == s
    &&& forall|a: V, r: V, s: V| #[trigger] roots(a, r) && #[trigger] roots(a, s) ==> r == s
    &&& forall|a: V, r: V, s: V| #[trigger] measures(a, r) && #[trigger] measures(a, s) ==> r == s
    &&& forall|a: V, b: V, r: bool, s: bool|
        #[trigger] orders(a, b, r) && #[trigger] orders(a, b, s) ==> r == s
    &&& forall|a: V, b: V, r: bool, s: bool|
        #[trigger] equates(a, b, r) && #[trigger] equates(a, b, s) ==> r == s
}

/// `less` has an answer for `a` and `b`.
pub open spec fn answered<V: Scalar>(a: V, b: V) -> bool {
    orders(a, b, true) || orders(a, b, false)
}

/// `less` is a strict order on `V`: it has an answer for every two values,
/// calls no value below itself, and what it calls below a value that it
/// calls below a third, it calls below the third.
pub open spec fn strictly_ordered<V: Scalar>() -> bool {
    &&& forall|a: V, b: V| #[trigger] answered(a, b)
    &&& forall|a: V| !(#[trigger] orders(a, a, true))
    &&& forall|a: V, b: V, c: V|
        #![trigger orders(a, b, true), orders(b, c, true)]
        orders(a, b, true) && orders(b, c, true) ==> !orders(a, c, false)
}

pub(crate) fn zero<V: Scalar>() -> (r: V)
    ensures
        zeroes(r),
{
    V::zero()
}

pub(crate) fn from_count<V: Scalar>(n: u64) -> (r: V)
    ensures
        counts(n as int, r),
{
    V::from_count(n)
}

pub(crate) fn infinity<V: Scalar>() -> (r: V)
    ensures
        tops(r),
{
    V::infinity()
}

pub(crate) fn neg_infinity<V: Scalar>() -> (r: V)
    ensures
        bottoms(r),
{
    V::neg_infinity()
}

pub(crate) fn lowest<V: Scalar>() -> (r: V)
    ensures
        floors(r),
{
    V::lowest()
}

pub(crate) fn highest<V: Scalar>() -> (r: V)
    ensures
        ceilings(r),
{
    V::highest()
}

pub(crate) fn plus<V: Scalar>(a: V, b: V) -> (r: V)
    ensures
        adds(a, b, r),
{
    a.plus(b)
}

pub(crate) fn minus<V: Scalar>(a: V, b: V) -> (r: V)
    ensures
        subtracts(a, b, r),
{
    a.minus(b)
}

pub(crate) fn times<V: Scalar>(a: V, b: V) -> (r: V)
    ensures
        multiplies(a, b, r),
{
    a.times(b)
}

pub(crate) fn over<V: Scalar>(a: V, b: V) -> (r: V)
    ensures
        divides(a, b, r),
{
    a.over(b)
}

pub(crate) fn root<V: Scalar>(a: V) -> (r: V)
    ensures
        roots(a, r),
{
    a.root()
}

pub(crate) fn magnitude<V: Scalar>(a: V) -> (r: V)
    ensures
        measures(a, r),
{
    a.magnitude()
}

pub(crate) fn less<V: Scalar>(a: V, b: V) -> (r: bool)
    ensures
        orders(a, b, r),
{
    a.less(b)
}

pub(crate) fn same<V: Scalar>(a: V, b: V) -> (r: bool)
    ensures
        equates(a, b, r),
{
    a.same(b)
}

pub(crate) fn text<V: Scalar>(a: V) -> (r: String)
    ensures
        names(a, r),
{
    a.text()
}

} // verus!
