//! What scenes hand back from their draw pass: a batch of drawing
//! instructions under an application-chosen context. The instruction and
//! context types belong to the rendering backend; the stage only gathers
//! batches in paint order.

use vstd::prelude::*;

verus! {

/// One scene's contribution to a frame: backend context plus drawing
/// instructions in paint order.
pub struct DrawBatch<T, C> {
    pub context: C,
    pub instructions: Vec<T>,
}

impl<T, C> DrawBatch<T, C> {
    pub fn new(context: C) -> (r: DrawBatch<T, C>)
        ensures
            r.context == context,
            r.instructions@ == Seq::<T>::empty(),
    {
        DrawBatch { context, instructions: Vec::new() }
    }
}

/// Mirroring to apply when a texture is drawn.
#[derive(Clone, Copy, PartialEq, Eq, Structural, Debug)]
pub struct DrawFlip {
    pub horizontal: bool,
    pub vertical: bool,
}

} // verus!
