//! A function that always fails, to show how a failure of this crate reaches
//! a caller that wants its message.

use vstd::prelude::*;

verus! {

/// The failure that [`throwing_function`] reports.
#[derive(Debug, Clone, Copy, PartialEq, Eq)]
pub enum MyErrorType {
    SomeError,
}

impl MyErrorType {
    /// The message under which the failure is shown.
    pub fn message(&self) -> (text: &'static str)
        ensures
            text@ == "display implementation becomes the error message"@,
    {
        "display implementation becomes the error message"
    }
}

/// Fails, always.
pub fn internal_api() -> (res: Result<(), MyErrorType>)
    ensures
        res == Err::<(), MyErrorType>(MyErrorType::SomeError),
{
    Err(MyErrorType::SomeError)
}

/// Passes the failure of [`internal_api`] on.
pub fn throwing_function() -> (res: Result<(), MyErrorType>)
    ensures
        res == Err::<(), MyErrorType>(MyErrorType::SomeError),
{
    internal_api()?;
    Ok(())
}

} // verus!
