//! The entity abstraction every persisted record satisfies: an identifier,
//! a monotonically stamped version, and a lowercase kind tag.

use vstd::prelude::*;

verus! {

/// A persistable entity: its identifier, version ordinal and kind tag, and
/// the two stamps the storage driver applies.
pub trait Object {
    fn uid(&self) -> &str;

    fn version(&self) -> u64;

    fn kind(&self) -> &str;

    fn update_uid(&mut self, id: &str);

    fn update_version(&mut self, version: u64);
}

} // verus!
