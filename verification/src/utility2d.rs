//! Shared vocabulary for simple 2D applications whose scenes receive their
//! context records by value: storage categories, the initialize and update
//! records, and per-tick notices. The instruction set carrying playback
//! volumes lives with the host.

use vstd::prelude::*;
use crate::input::InputMap;

verus! {

/// Category of a typed resource storage inside an aggregate.
#[derive(Clone, Copy, Eq, Hash, PartialEq, Structural, Debug)]
pub enum StorageType {
    Data,
    Music,
    Sound,
    Texture,
}

impl StorageType {
    /// The category's display name.
    pub open spec fn spec_label(self) -> Seq<char> {
        match self {
            StorageType::Data => "Data"@,
            StorageType::Music => "Music"@,
            StorageType::Sound => "Sound"@,
            StorageType::Texture => "Texture"@,
        }
    }

    /// Renders the category's display name.
    pub fn label(&self) -> (s: String)
        ensures
            s@ == self.spec_label(),
    {
        match self {
            StorageType::Data => "Data".to_owned(),
            StorageType::Music => "Music".to_owned(),
            StorageType::Sound => "Sound".to_owned(),
            StorageType::Texture => "Texture".to_owned(),
        }
    }
}

/// Everything a scene needs for one-time setup: the input bindings, the
/// resource storages, and application content.
pub struct Initialize<I, A, S, C> {
    pub input: InputMap<I, A>,
    pub storage: S,
    pub content: C,
}

impl<I, A, S, C> Initialize<I, A, S, C> {
    pub fn new(input: InputMap<I, A>, storage: S, content: C) -> (r: Initialize<I, A, S, C>)
        ensures
            r.input == input,
            r.storage == storage,
            r.content == content,
    {
        Initialize { input, storage, content }
    }
}

/// Everything a scene reads during one update tick: the input state, the
/// host's notices for this tick, and application content.
pub struct Update<I, A, C> {
    pub input: InputMap<I, A>,
    pub info: Vec<UpdateInfo>,
    pub content: C,
}

/// Host notice delivered to scenes with each update tick.
#[derive(Clone, Copy, PartialEq, Eq, Structural, Debug)]
pub enum UpdateInfo {
    MusicStopped,
}

} // verus!
