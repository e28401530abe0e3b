//! Error taxonomy of the read-side translation: an unknown revision is
//! recoverable per input item, a corrupt index entry and a malformed patch
//! are hard failures for the request that hit them.

use vstd::prelude::*;

verus! {

#[derive(Clone, Copy, PartialEq, Eq, Structural, Debug)]
pub enum DumpError {
    /// The revision does not exist or has no recorded translation.
    UnknownRevision,
    /// The metadata attached to a translated commit is missing or malformed.
    CorruptIndex,
    /// The edit list of a metadata patch references impossible offsets.
    MalformedPatch,
}

} // verus!
