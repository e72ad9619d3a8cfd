//! Views through `Option` and `Result`.

use vstd::prelude::*;

verus! {

/// The view of what an option holds.
pub open spec fn option_view<T: View>(option: Option<T>) -> Option<T::V> {
    match option {
        Some(value) => Some(value@),
        None => None,
    }
}

/// The view of what a result holds, be it the value or the error.
pub open spec fn result_view<T: View, E: View>(result: Result<T, E>) -> Result<T::V, E::V> {
    match result {
        Ok(value) => Ok(value@),
        Err(error) => Err(error@),
    }
}

} // verus!
