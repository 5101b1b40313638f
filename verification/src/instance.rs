//! Instances of VRChat worlds, and the answer about one that goes back to
//! clients.

use vstd::prelude::*;

verus! {

/// A world as VRChat describes it.
#[allow(non_snake_case)]
pub struct World {
    pub name: String,
    pub description: String,
    pub thumbnailImageUrl: String,
}

/// An instance as VRChat describes it.
#[allow(non_snake_case)]
pub struct InstanceData {
    pub ownerId: Option<String>,
    pub userCount: i32,
    pub world: World,
}

/// The answer about an instance.
#[allow(non_snake_case)]
pub struct ResponseInstance {
    pub ownerId: Option<String>,
    pub userCount: i32,
    pub name: String,
    pub description: String,
    pub thumbnailImageUrl: String,
}

impl InstanceData {
    /// The answer about this instance: its owner and user count, with the
    /// name, description and thumbnail of its world.
    pub fn to_res(self) -> (r: ResponseInstance)
        ensures
            r.ownerId == self.ownerId,
            r.userCount == self.userCount,
            r.name == self.world.name,
            r.description == self.world.description,
            r.thumbnailImageUrl == self.world.thumbnailImageUrl,
    {
        ResponseInstance {
            ownerId: self.ownerId,
            userCount: self.userCount,
            name: self.world.name,
            description: self.world.description,
            thumbnailImageUrl: self.world.thumbnailImageUrl,
        }
    }
}

} // verus!
