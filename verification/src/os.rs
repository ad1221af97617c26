//! Operating-system report type. Live probing is an external
//! collaborator; this module holds the data shape it fills.

use vstd::prelude::*;

verus! {

/// What the embedding process learned about the running system; fields
/// it could not learn hold the "Unavailable" placeholder.
#[derive(Debug)]
pub struct OSDetails {
    pub os_type: String,
    pub version: String,
    pub edition: String,
    pub codename: String,
    pub bitness: String,
    pub architecture: String,
}

impl OSDetails {
    /// Assembles a report from the probed values.
    pub fn new(
        os_type: String,
        version: String,
        edition: String,
        codename: String,
        bitness: String,
        architecture: String,
    ) -> (r: OSDetails)
        ensures
            r.os_type@ == os_type@,
            r.version@ == version@,
            r.edition@ == edition@,
            r.codename@ == codename@,
            r.bitness@ == bitness@,
            r.architecture@ == architecture@,
    {
        OSDetails { os_type, version, edition, codename, bitness, architecture }
    }
}

} // verus!
