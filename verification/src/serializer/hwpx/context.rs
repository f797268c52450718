//! What the HWPX serializer records while it writes a package.

use vstd::prelude::*;

verus! {

/// A binary item registered for the package: its href in the archive and
/// whether it is stored in the archive (an external reference is not).
pub struct BinDataEntry {
    pub href: String,
    pub is_embedded: bool,
}

} // verus!
