//! Plain data carried across the library boundary.

use vstd::prelude::*;

verus! {

/// A request to change one user's membership in one group.
pub struct GroupRequest {
    pub user: String,
    pub group: String,
}

} // verus!
