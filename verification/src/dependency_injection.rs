use vstd::prelude::*;

verus! {

/// A source of values of type `T`, to inject them as dependencies.
pub trait Provides<T> {
    fn provide(&self) -> T;
}

impl<T: Clone> Provides<T> for T {
    /// A clone of itself.
    fn provide(&self) -> (r: T)
        ensures
            cloned::<T>(*self, r),
    {
        self.clone()
    }
}

/// Names the type to provide at the call: `x.provide_a::<T>()`.
pub trait ProvideA {
    fn provide_a<T>(&self) -> (r: T) where Self: Provides<T>
        ensures
            call_ensures(<Self as Provides<T>>::provide, (self,), r),
    {
        self.provide()
    }
}

impl<T> ProvideA for T {
}

} // verus!
