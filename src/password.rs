//! A value read from text that must not be echoed.
use vstd::prelude::*;

verus! {

/// A value typed in password mode.
pub struct Password<T>(pub T);

} // verus!
