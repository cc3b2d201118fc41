//! The request-specific codecs, and the version-support rule they share.

pub mod apiversions;
pub mod describetopic;

use vstd::prelude::*;

use crate::schema::apiversions::SupportedVersionsKey;

verus! {

/// True when some entry of the table covers `key` at `version`: the entry
/// names the key and its inclusive `[min, max]` range contains the version.
pub open spec fn supports_version(
    table: Seq<SupportedVersionsKey>,
    key: i16,
    version: i16,
) -> bool {
    exists|i: int|
        0 <= i < table.len() && #[trigger] table[i].key == key && table[i].min <= version
            && version <= table[i].max
}

/// Checks whether `version` is supported for `key` against the supplied
/// table of supported version ranges.
pub fn is_version_supported(
    table: &Vec<SupportedVersionsKey>,
    key: i16,
    version: i16,
) -> (r: bool)
    ensures
        r == supports_version(table@, key, version),
{
    let mut i: usize = 0;
    while i < table.len()
        invariant
            i <= table@.len(),
            forall|k: int|
                0 <= k < i ==> !(#[trigger] table@[k].key == key && table@[k].min <= version
                    && version <= table@[k].max),
        decreases table@.len() - i,
    {
        let entry = table[i];
        if entry.key == key && entry.min <= version && version <= entry.max {
            return true;
        }
        i = i + 1;
    }
    false
}

} // verus!
