use vstd::prelude::*;

verus! {

/// Error type of [`really_complicated_code`]; it is never produced, the
/// computation cannot fail once its precondition holds.
pub enum ComputeError {
    Unreachable,
}

/// Adds two bytes.
pub fn really_complicated_code(a: u8, b: u8) -> (r: Result<u8, ComputeError>)
    requires
        a + b <= u8::MAX,
    ensures
        r == Ok::<u8, ComputeError>((a + b) as u8),
{
    Ok(a + b)
}

} // verus!
