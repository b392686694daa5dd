//! The scene capability: a self-contained unit of per-frame behavior that a
//! [`crate::Stage`] composes into a layered stack.
//!
//! An implementation describes its own behavior with the spec functions
//! below; the executable methods promise to follow them, which is what lets
//! the stage's update and draw passes carry exact contracts over whole
//! stacks of scenes.

use vstd::prelude::*;
use crate::Response;

verus! {

/// One layer of per-frame behavior. The `blocking` and `covering` flags are
/// queried fresh every frame, never cached, so a scene may change them from
/// its own state (a menu that stops blocking once dismissed).
///
/// The spec functions default to the inert scene — state untouched, nothing
/// emitted, nothing drawn, never blocking or covering. An implementation
/// overrides every description that its executable methods do not satisfy.
pub trait Scene: Sized {
    /// Name by which other scenes address this one.
    type Key;

    /// Context handed to `initialize`.
    type Initialize;

    /// Context handed to every update tick.
    type Update;

    /// Payload of inter-scene messages.
    type Message;

    /// Host-bound side effect emitted by an update tick.
    type Instruction;

    /// Context handed to every draw call.
    type Draw;

    /// What one scene contributes to a frame's rendering.
    type DrawBatch;

    /// Time quantity handed through the passes (a tick delta, an
    /// interpolation factor); the stage never computes with it.
    type Time;

    /// The scene state after folding one update tick.
    open spec fn post_update(self, update: Self::Update, delta: Self::Time) -> Self {
        self
    }

    /// The responses one update tick emits, in emission order.
    open spec fn responses_of(self, update: Self::Update, delta: Self::Time) -> Seq<
        Response<Self::Key, Self::Message, Self::Instruction>,
    > {
        Seq::empty()
    }

    /// The scene state after receiving one message.
    open spec fn post_receive(self, message: Self::Message) -> Self {
        self
    }

    /// The batch one draw call produces.
    open spec fn batch_of(self, draw: Self::Draw, interp: Self::Time) -> Self::DrawBatch {
        vstd::pervasive::arbitrary()
    }

    /// Whether the scene currently halts the update pass below itself.
    open spec fn spec_blocking(self) -> bool {
        false
    }

    /// Whether the scene currently hides everything drawn below itself.
    open spec fn spec_covering(self) -> bool {
        false
    }

    /// One-time setup against the host's resources; both sides may mutate.
    fn initialize(&mut self, init: &mut Self::Initialize);

    /// Advances the scene by one tick and reports what it asks of others.
    fn update(&mut self, update: &Self::Update, delta: &Self::Time) -> (responses: Vec<
        Response<Self::Key, Self::Message, Self::Instruction>,
    >)
        ensures
            *final(self) == old(self).post_update(*update, *delta),
            responses@ == old(self).responses_of(*update, *delta),
    ;

    /// Renders the scene's contribution for this frame.
    fn draw(&self, draw: &Self::Draw, interp: &Self::Time) -> (batch: Self::DrawBatch)
        ensures
            batch == self.batch_of(*draw, *interp),
    ;

    /// Delivers one message from another scene.
    fn receive_message(&mut self, message: &Self::Message)
        ensures
            *final(self) == old(self).post_receive(*message),
    ;

    fn covering(&self) -> (b: bool)
        ensures
            b == self.spec_covering(),
    ;

    fn blocking(&self) -> (b: bool)
        ensures
            b == self.spec_blocking(),
    ;
}

} // verus!
