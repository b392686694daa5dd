//! Storage categories a simple 2D aggregate distinguishes.

use vstd::prelude::*;

verus! {

/// Category of a typed resource storage inside an aggregate.
#[derive(Clone, Copy, Eq, Hash, PartialEq, Structural, Debug)]
pub enum StorageType {
    Music,
    Sound,
    Texture,
}

impl StorageType {
    /// The category's display name.
    pub open spec fn spec_label(self) -> Seq<char> {
        match self {
            StorageType::Music => "Music"@,
            StorageType::Sound => "Sound"@,
            StorageType::Texture => "Texture"@,
        }
    }

    /// Renders the category's display name.
    pub fn label(&self) -> (s: String)
        ensures
            s@ == self.spec_label(),
    {
        match self {
            StorageType::Music => "Music".to_owned(),
            StorageType::Sound => "Sound".to_owned(),
            StorageType::Texture => "Texture".to_owned(),
        }
    }
}

} // verus!
