//! Middleware and its order.

use vstd::prelude::*;

verus! {

/// A layer around a service of type `S`.
pub trait Middleware<S>: Sized {
    /// The service with the layer around it.
    type Wrapped;

    /// Wraps the layer around a service.
    fn wrap(self, next: S) -> Self::Wrapped;
}

/// Whether `r` comes of wrapping first `inner` around `next` and then `outer` around that.
pub open spec fn layered<S, M2: Middleware<S>, M1: Middleware<M2::Wrapped>>(
    outer: M1,
    inner: M2,
    next: S,
    r: M1::Wrapped,
) -> bool {
    exists|middle: M2::Wrapped|
        {
            &&& #[trigger] call_ensures(M2::wrap, (inner, next), middle)
            &&& call_ensures(M1::wrap, (outer, middle), r)
        }
}

/// Two layers are one: the first is the outermost.
impl<S, M1, M2> Middleware<S> for (M1, M2) where M2: Middleware<S>, M1: Middleware<M2::Wrapped> {
    type Wrapped = M1::Wrapped;

    fn wrap(self, next: S) -> (r: M1::Wrapped)
        ensures
            layered(self.0, self.1, next, r),
    {
        let middle = self.1.wrap(next);
        self.0.wrap(middle)
    }
}

/// Whether `r` comes of wrapping `third`, then `second`, then `first` around `next`.
pub open spec fn in_order<S, A, B, C>(first: A, second: B, third: C, next: S, r: A::Wrapped) -> bool
    where C: Middleware<S>, B: Middleware<C::Wrapped>, A: Middleware<B::Wrapped>
{
    exists|inner: C::Wrapped, middle: B::Wrapped|
        {
            &&& #[trigger] call_ensures(C::wrap, (third, next), inner)
            &&& #[trigger] call_ensures(B::wrap, (second, inner), middle)
            &&& call_ensures(A::wrap, (first, middle), r)
        }
}

/// Layers are wrapped in the order in which they are written, the first outermost, however
/// they are grouped.
pub proof fn law_layers_keep_their_order<S, A, B, C>(
    first: A,
    second: B,
    third: C,
    next: S,
    r: A::Wrapped,
) where C: Middleware<S>, B: Middleware<C::Wrapped>, A: Middleware<B::Wrapped>
    ensures
        call_ensures(<((A, B), C) as Middleware<S>>::wrap, (((first, second), third), next), r)
            ==> in_order(first, second, third, next, r),
        call_ensures(<(A, (B, C)) as Middleware<S>>::wrap, ((first, (second, third)), next), r)
            ==> in_order(first, second, third, next, r),
{
    if call_ensures(<((A, B), C) as Middleware<S>>::wrap, (((first, second), third), next), r) {
        assert(layered((first, second), third, next, r));
        let inner = choose|inner: C::Wrapped|
            {
                &&& #[trigger] call_ensures(C::wrap, (third, next), inner)
                &&& call_ensures(
                    <(A, B) as Middleware<C::Wrapped>>::wrap,
                    ((first, second), inner),
                    r,
                )
            };
        assert(layered(first, second, inner, r));
    }
    if call_ensures(<(A, (B, C)) as Middleware<S>>::wrap, ((first, (second, third)), next), r) {
        assert(layered(first, (second, third), next, r));
        let middle = choose|middle: B::Wrapped|
            {
                &&& #[trigger] call_ensures(
                    <(B, C) as Middleware<S>>::wrap,
                    ((second, third), next),
                    middle,
                )
                &&& call_ensures(A::wrap, (first, middle), r)
            };
        assert(layered(second, third, next, middle));
    }
}

/// Of two layers the first is the outer one: the second is wrapped around the service, and the
/// first around what comes of that.
pub proof fn law_first_layer_is_outermost<S, A, B>(first: A, second: B, next: S, r: A::Wrapped)
    where B: Middleware<S>, A: Middleware<B::Wrapped>
    requires
        call_ensures(<(A, B) as Middleware<S>>::wrap, ((first, second), next), r),
    ensures
        exists|middle: B::Wrapped|
            {
                &&& #[trigger] call_ensures(B::wrap, (second, next), middle)
                &&& call_ensures(A::wrap, (first, middle), r)
            },
{
    assert(layered(first, second, next, r));
}

} // verus!
