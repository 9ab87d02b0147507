//! Request and response bodies, with the declared validation rules of each
//! request evaluated through the aggregator.

pub mod login_schema;
pub mod register_schema;
pub mod user_schema;
