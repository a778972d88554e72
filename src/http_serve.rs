//! The static file server; the program runs it, as it is all network and disk.

use vstd::prelude::*;

verus! {

/// A server of the files under one directory.
pub struct HttpServe;

} // verus!
