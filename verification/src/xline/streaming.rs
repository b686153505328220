//! What a receiver of a stream of replies is told.

use vstd::prelude::*;

verus! {

/// The next message of a stream, given what the stream yields: a message, a failure, or nothing at
/// its end.
pub fn message<T, E>(next: Option<Result<T, E>>) -> (r: Result<Option<T>, E>)
    ensures
        match next {
            Some(Ok(m)) => r == Ok::<Option<T>, E>(Some(m)),
            Some(Err(e)) => r == Err::<Option<T>, E>(e),
            None => r == Ok::<Option<T>, E>(None),
        },
{
    match next {
        Some(Ok(m)) => Ok(Some(m)),
        Some(Err(e)) => Err(e),
        None => Ok(None),
    }
}

} // verus!
