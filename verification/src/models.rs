//! Rows as the persistence collaborator hands them to the core. Timestamps
//! are carried as already-rendered text: the core never computes with them.

use vstd::prelude::*;

verus! {

/// A stored user row, without the password hash.
#[derive(Debug)]
pub struct User {
    pub id: i64,
    pub name: String,
    pub email: String,
    pub created_at: Option<String>,
    pub updated_at: Option<String>,
}

} // verus!
