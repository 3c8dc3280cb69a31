//! Small type extensions.
use vstd::prelude::*;

verus! {

/// Data, with metadata about it.
pub struct Metadata<Meta, Data>(pub Meta, pub Data);

/// Splits an optional pair into two options.
pub trait Split2<T1, T2>: Sized {
    spec fn pair(&self) -> Option<(T1, T2)>;

    fn split2(self) -> (r: (Option<T1>, Option<T2>))
        ensures
            match self.pair() {
                Some((a, b)) => r == (Some(a), Some(b)),
                None => r == (None::<T1>, None::<T2>),
            },
    ;
}

impl<T1, T2> Split2<T1, T2> for Option<(T1, T2)> {
    open spec fn pair(&self) -> Option<(T1, T2)> {
        *self
    }

    fn split2(self) -> (r: (Option<T1>, Option<T2>)) {
        match self {
            Some((a, b)) => (Some(a), Some(b)),
            None => (None, None),
        }
    }
}

} // verus!
