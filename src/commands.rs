//! One frame's drawing intent: the commands a script records, and the
//! buffer that holds them until the renderer takes them.
use std::rc::Rc;
use vstd::prelude::*;

use crate::geometry::{Color, Rect, Size, Vec2};

verus! {

/// One drawing or control instruction recorded while a script draws.
///
/// `T` is the renderer's shaped-text block; a command shares it with the
/// text-layout cache that made it.
#[derive(Debug, PartialEq)]
pub enum GraphicsCalls<T> {
    ClearScreenBlack,
    ClearScreen(Color),
    DrawRectangle(Rect, Color),
    DrawText(Vec2, Color, Rc<T>),
    DrawImage(Vec2, String),
    DrawRectangleImageTinted(Rect, String, Color),
    PushOffset(Vec2),
    PopOffset,
    SetResolution(Size),
    ImageFileUpdate(String),
}

/// The ordered commands of one frame, filled by the script thread and then
/// handed over whole.
pub struct CommandBuffer<T> {
    calls: Vec<GraphicsCalls<T>>,
}

impl<T> View for CommandBuffer<T> {
    type V = Seq<GraphicsCalls<T>>;

    closed spec fn view(&self) -> Seq<GraphicsCalls<T>> {
        self.calls@
    }
}

/// Relies on `Rc::clone`: the copy points at the same allocation as `h`, so
/// the two are the same value.
#[verifier::external_body]
pub(crate) fn share<T>(h: &Rc<T>) -> (r: Rc<T>)
    ensures
        r == *h,
{
    Rc::clone(h)
}

impl<T> CommandBuffer<T> {
    /// An empty buffer.
    pub fn new() -> (r: Self)
        ensures
            r@ == Seq::<GraphicsCalls<T>>::empty(),
    {
        CommandBuffer { calls: Vec::new() }
    }

    /// Records one command after those already there.
    pub fn append(&mut self, call: GraphicsCalls<T>)
        ensures
            final(self)@ == old(self)@.push(call),
    {
        self.calls.push(call);
    }

    /// Hands out every recorded command, in order, and leaves the buffer empty.
    pub fn drain(&mut self) -> (r: Vec<GraphicsCalls<T>>)
        ensures
            r@ == old(self)@,
            final(self)@ == Seq::<GraphicsCalls<T>>::empty(),
    {
        let mut taken: Vec<GraphicsCalls<T>> = Vec::new();
        std::mem::swap(&mut taken, &mut self.calls);
        taken
    }

    /// Moves this buffer's commands into `published`, replacing what it held,
    /// and leaves this buffer empty for the next frame.
    pub fn hand_off(&mut self, published: &mut CommandBuffer<T>)
        ensures
            final(published)@ == old(self)@,
            final(self)@ == Seq::<GraphicsCalls<T>>::empty(),
    {
        published.calls = self.drain();
    }

    /// The recorded commands, in order.
    pub fn calls(&self) -> (r: &Vec<GraphicsCalls<T>>)
        ensures
            r@ == self@,
    {
        &self.calls
    }

    pub fn len(&self) -> (r: usize)
        ensures
            r == self@.len(),
    {
        self.calls.len()
    }
}

} // verus!
