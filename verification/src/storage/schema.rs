//! The version of the database schema.

use vstd::prelude::*;

verus! {

/// The version of the schema that this build creates.
pub const SCHEMA_VERSION: u32 = 1;

} // verus!
