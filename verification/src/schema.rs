//! Whether the service's tables are to be created when it starts.

use vstd::prelude::*;

verus! {

/// What the service does with its tables at start.
#[derive(Debug)]
pub enum SchemaPlan {
    /// The tables are there already; report this.
    Keep(String),
    /// Create the tables; once they are created, report this.
    Create(String),
}

/// The tables are created only when the counters table is missing; the
/// report says which happened.
pub fn schema_plan(counters_table_exists: bool) -> (p: SchemaPlan)
    ensures
        counters_table_exists ==> (p matches SchemaPlan::Keep(m) && m@ == "Table already exists"@),
        !counters_table_exists ==> (p matches SchemaPlan::Create(m) && m@ == "Table created successfully!"@),
{
    if counters_table_exists {
        SchemaPlan::Keep(String::from_str("Table already exists"))
    } else {
        SchemaPlan::Create(String::from_str("Table created successfully!"))
    }
}

} // verus!
