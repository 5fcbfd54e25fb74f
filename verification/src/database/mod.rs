//! What the database tables hold, and the decisions made on their rows.
pub mod approvals;
pub mod jobs;
pub mod provider_usage;
pub mod sessions;
pub mod tasks;

use vstd::prelude::*;

use crate::text::cat3;

verus! {

/// The address of a database file, which is created where it does not exist.
pub fn database_url(path: &str) -> (r: String)
    ensures
        r@ == "sqlite:"@ + path@ + "?mode=rwc"@,
{
    cat3("sqlite:", path, "?mode=rwc")
}

} // verus!
