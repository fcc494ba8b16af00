//! Unix permission bits of a directory.

use vstd::prelude::*;

verus! {

/// The bits that grant access to the group or to everyone else.
pub const GROUP_EVERYONE_MASK: u32 = 0o077;

/// Permission bits as read from a file's metadata.
#[derive(Debug, Clone, Copy, PartialEq, Eq, Structural)]
pub struct Permissions(pub u32);

impl Permissions {
    /// Whether nobody but the owner has any access.
    pub open spec fn spec_only_owner(self) -> bool {
        self.0 & GROUP_EVERYONE_MASK == 0
    }

    /// Whether nobody but the owner has any access.
    pub fn is_only_owner_full_control(&self) -> (r: bool)
        ensures
            r == self.spec_only_owner(),
    {
        self.0 & GROUP_EVERYONE_MASK == 0
    }
}

} // verus!
