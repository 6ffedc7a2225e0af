use vstd::prelude::*;

verus! {

/// `Ok` when `min <= n <= max`; otherwise the error that `f` makes.
pub fn validate_number<E, F: Fn() -> E>(n: i64, min: i64, max: i64, f: F) -> (r: Result<(), E>)
    requires
        f.requires(()),
    ensures
        r is Ok <==> min <= n <= max,
        r matches Err(e) ==> f.ensures((), e),
{
    if n >= min && n <= max {
        Ok(())
    } else {
        Err(f())
    }
}

} // verus!
