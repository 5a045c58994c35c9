use vstd::prelude::*;

verus! {

/// The cache key of an external lookup: the date the picture is requested
/// for, as a `YYYY-MM-DD` string.
#[derive(Debug)]
pub struct NasaQuery {
    pub query_string: String,
}

impl NasaQuery {
    /// A field-by-field copy of this query.
    pub fn duplicate(&self) -> (r: NasaQuery)
        ensures
            r == *self,
    {
        NasaQuery { query_string: self.query_string.clone() }
    }
}

} // verus!
