//! Which entity kinds an explicit refresh covers.
use vstd::prelude::*;

verus! {

/// The entity kinds an explicit refresh fetches.
#[derive(Debug, Clone, Copy, PartialEq, Eq, Structural)]
pub enum RefreshTarget {
    Users,
    Channels,
    All,
}

impl RefreshTarget {
    /// The refresh fetches and replaces the users.
    pub fn includes_users(&self) -> (r: bool)
        ensures
            r == (*self == RefreshTarget::Users || *self == RefreshTarget::All),
    {
        match self {
            RefreshTarget::Users | RefreshTarget::All => true,
            RefreshTarget::Channels => false,
        }
    }

    /// The refresh fetches and replaces the channels.
    pub fn includes_channels(&self) -> (r: bool)
        ensures
            r == (*self == RefreshTarget::Channels || *self == RefreshTarget::All),
    {
        match self {
            RefreshTarget::Channels | RefreshTarget::All => true,
            RefreshTarget::Users => false,
        }
    }
}

} // verus!
