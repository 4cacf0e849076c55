//! Township resolution for batches of street addresses.
//!
//! The library holds the decisions of the batch job: how an address list is
//! cut out of a text, which lookup is sent for an address, how one township
//! name is picked out of a geocoding answer, and when a batch goes on, skips
//! an address or aborts. Network and file access belong to the caller.

pub mod addresses;
pub mod model;
pub mod pipeline;
pub mod request;
pub mod resolver;
pub mod table;
pub mod text;
