//! Values that must be checked before use, and a wrapper that holds a value
//! until it has been checked.

use vstd::prelude::*;

verus! {

/// A value that can be checked against a context (for a reference: the key of
/// the party expected to hold it).
pub trait Validate: Sized {
    type Context;

    type Error;

    /// What checking the value against `context` yields.
    spec fn outcome(&self, context: &Self::Context) -> Result<(), Self::Error>;

    /// Check the value against `context`.
    fn validate(&self, context: &Self::Context) -> (r: Result<(), Self::Error>)
        ensures
            r == self.outcome(context),
    ;
}

/// A value that was received (decoded) but not yet checked; the only way to
/// the value is `validate`.
pub struct Unsafe<T: Validate>(T);

impl<T: Validate> Unsafe<T> {
    /// The value held, not yet checked.
    pub closed spec fn held(&self) -> T {
        self.0
    }

    /// Hold `value` until it is checked.
    pub fn new(value: T) -> (r: Self)
        ensures
            r.held() == value,
    {
        Unsafe(value)
    }

    /// Check the value against `context` and hand it out when the check
    /// passes.
    pub fn validate(self, context: &T::Context) -> (r: Result<T, T::Error>)
        ensures
            r is Ok <==> self.held().outcome(context) is Ok,
            r matches Ok(v) ==> v == self.held(),
            r matches Err(e) ==> self.held().outcome(context) == Err::<(), T::Error>(e),
    {
        match self.0.validate(context) {
            Ok(()) => Ok(self.0),
            Err(e) => Err(e),
        }
    }
}

} // verus!
