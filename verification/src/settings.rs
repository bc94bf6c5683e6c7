//! Configuration values for the surrounding process.  Loading them from a
//! configuration source is the embedding application's concern; the library
//! only fixes their shape.
use vstd::prelude::*;

verus! {

/// Connection settings of the backing database.
#[derive(Debug)]
pub struct Database {
    pub url: String,
}

/// Process-wide settings.
#[derive(Debug)]
pub struct Settings {
    pub debug: bool,
    pub database: Database,
}

} // verus!
