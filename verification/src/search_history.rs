//! What the catalog remembers of past searches.

use vstd::prelude::*;

verus! {

/// A search expression and how often it was used.
#[derive(Clone, Debug, Default, PartialEq, Eq)]
pub struct SearchHistory {
    pub expression: String,
    pub uses: i64,
}

} // verus!
