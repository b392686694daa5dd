//! Shared vocabulary for applications whose scenes exchange host state
//! behind shared handles: storage categories and per-tick notices. The
//! context records themselves (built around shared interior-mutable cells)
//! and the instruction set carrying playback volumes live with the host.

use vstd::prelude::*;

verus! {

/// Category of a typed resource storage inside an aggregate.
#[derive(Clone, Copy, Eq, Hash, PartialEq, Structural, Debug)]
pub enum StorageType {
    Data,
    Font,
    Music,
    Sound,
    Texture,
}

impl StorageType {
    /// The category's display name.
    pub open spec fn spec_label(self) -> Seq<char> {
        match self {
            StorageType::Data => "Data"@,
            StorageType::Font => "Font"@,
            StorageType::Music => "Music"@,
            StorageType::Sound => "Sound"@,
            StorageType::Texture => "Texture"@,
        }
    }

    /// Renders the category's display name.
    pub fn label(&self) -> (s: String)
        ensures
            s@ == self.spec_label(),
    {
        match self {
            StorageType::Data => "Data".to_owned(),
            StorageType::Font => "Font".to_owned(),
            StorageType::Music => "Music".to_owned(),
            StorageType::Sound => "Sound".to_owned(),
            StorageType::Texture => "Texture".to_owned(),
        }
    }
}

/// Host notice delivered to scenes with each update tick.
#[derive(Clone, Copy, PartialEq, Eq, Structural, Debug)]
pub enum UpdateInfo {
    MusicStopped,
}

} // verus!
