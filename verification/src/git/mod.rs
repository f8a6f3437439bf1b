//! Repository data as the library sees it, and the pure parts of loading it.

pub mod time;
pub mod types;
pub mod oid;
pub mod ancestry;
pub mod load;
