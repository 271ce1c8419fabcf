//! Joining the results of tasks that ran side by side.

use vstd::prelude::*;

verus! {

/// Turns a tuple of results into the result of the tuple: all the values
/// where every part succeeded, else the error of the first part that failed.
pub trait TryAll: Sized {
    type Value;

    type Error;

    /// What `try_all` returns.
    spec fn joined(self) -> Result<Self::Value, Self::Error>;

    fn try_all(self) -> (result: Result<Self::Value, Self::Error>)
        ensures
            result == self.joined(),
    ;
}

impl<T1, T2, E> TryAll for (Result<T1, E>, Result<T2, E>) {
    type Value = (T1, T2);

    type Error = E;

    open spec fn joined(self) -> Result<(T1, T2), E> {
        match self {
            (Ok(v1), Ok(v2)) => Ok((v1, v2)),
            (Err(e), _) => Err(e),
            (_, Err(e)) => Err(e),
        }
    }

    fn try_all(self) -> (result: Result<(T1, T2), E>) {
        match self {
            (Ok(v1), Ok(v2)) => Ok((v1, v2)),
            (Err(e), _) => Err(e),
            (_, Err(e)) => Err(e),
        }
    }
}

impl<T1, T2, T3, E> TryAll for (Result<T1, E>, Result<T2, E>, Result<T3, E>) {
    type Value = (T1, T2, T3);

    type Error = E;

    open spec fn joined(self) -> Result<(T1, T2, T3), E> {
        match self {
            (Ok(v1), Ok(v2), Ok(v3)) => Ok((v1, v2, v3)),
            (Err(e), _, _) => Err(e),
            (_, Err(e), _) => Err(e),
            (_, _, Err(e)) => Err(e),
        }
    }

    fn try_all(self) -> (result: Result<(T1, T2, T3), E>) {
        match self {
            (Ok(v1), Ok(v2), Ok(v3)) => Ok((v1, v2, v3)),
            (Err(e), _, _) => Err(e),
            (_, Err(e), _) => Err(e),
            (_, _, Err(e)) => Err(e),
        }
    }
}

/// A join succeeds exactly when every part has succeeded, and then holds
/// the parts' values in their order.
pub proof fn lemma_join_ok<T1, T2, T3, E>(results: (Result<T1, E>, Result<T2, E>, Result<T3, E>))
    ensures
        results.joined() is Ok <==> results.0 is Ok && results.1 is Ok && results.2 is Ok,
        results.joined() matches Ok(values) ==> Ok::<T1, E>(values.0) == results.0 && Ok::<T2, E>(
            values.1,
        ) == results.1 && Ok::<T3, E>(values.2) == results.2,
{
}

} // verus!
