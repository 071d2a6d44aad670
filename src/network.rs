//! The header: the first frame of every connection.
use vstd::prelude::*;

verus! {

/// Names the method called, with its non-streaming arguments inside `method`,
/// and carries metadata by name.
pub struct Headers<M> {
    pub method: M,
    pub headers: std::collections::HashMap<String, Vec<u8>>,
}

impl<M> Headers<M> {
    /// A header for `method` with no metadata.
    pub fn new(method: M) -> (r: Self)
        ensures
            r.method == method,
            r.headers@.len() == 0,
    {
        Headers { method, headers: std::collections::HashMap::new() }
    }
}

} // verus!
