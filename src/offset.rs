//! The stack of offsets that the renderer applies while it replays a frame.
use vstd::prelude::*;

use crate::geometry::{Point, Vec2};

verus! {

/// The deepest nesting the stack takes; it keeps the running sums within `i64`.
pub const MAX_DEPTH: usize = 0x7fff_ffff;

/// Sum of the horizontal parts of a sequence of offsets.
pub open spec fn sum_x(s: Seq<Vec2>) -> int
    decreases s.len(),
{
    if s.len() == 0 {
        0
    } else {
        sum_x(s.drop_last()) + s.last().x
    }
}

/// Sum of the vertical parts of a sequence of offsets.
pub open spec fn sum_y(s: Seq<Vec2>) -> int
    decreases s.len(),
{
    if s.len() == 0 {
        0
    } else {
        sum_y(s.drop_last()) + s.last().y
    }
}

/// The offset in force under a stack: the sum of everything on it.
pub open spec fn total_offset(s: Seq<Vec2>) -> (int, int) {
    (sum_x(s), sum_y(s))
}

pub proof fn lemma_sum_bounds(s: Seq<Vec2>)
    ensures
        -(s.len() * 0x8000_0000) <= sum_x(s) <= s.len() * 0x8000_0000,
        -(s.len() * 0x8000_0000) <= sum_y(s) <= s.len() * 0x8000_0000,
    decreases s.len(),
{
    if s.len() > 0 {
        lemma_sum_bounds(s.drop_last());
    }
}

/// A stack of offsets with the running sum of what it holds.
pub struct OffsetStack {
    stack: Vec<Vec2>,
    sum_x: i64,
    sum_y: i64,
}

impl View for OffsetStack {
    type V = Seq<Vec2>;

    closed spec fn view(&self) -> Seq<Vec2> {
        self.stack@
    }
}

impl OffsetStack {
    /// The running sums match the stack, and its depth stays bounded.
    pub closed spec fn wf(&self) -> bool {
        &&& self.stack@.len() <= MAX_DEPTH
        &&& self.sum_x == sum_x(self.stack@)
        &&& self.sum_y == sum_y(self.stack@)
    }

    /// An empty stack, whose offset is zero.
    pub fn new() -> (r: Self)
        ensures
            r.wf(),
            r@ == Seq::<Vec2>::empty(),
    {
        OffsetStack { stack: Vec::new(), sum_x: 0, sum_y: 0 }
    }

    /// Empties the stack, as at the start of each frame.
    pub fn reset(&mut self)
        ensures
            final(self).wf(),
            final(self)@ == Seq::<Vec2>::empty(),
    {
        self.stack.clear();
        self.sum_x = 0;
        self.sum_y = 0;
    }

    /// Adds `v` to the running offset and remembers it.
    pub fn push(&mut self, v: Vec2)
        requires
            old(self).wf(),
            old(self)@.len() < MAX_DEPTH,
        ensures
            final(self).wf(),
            final(self)@ == old(self)@.push(v),
    {
        proof {
            lemma_sum_bounds(self.stack@);
        }
        self.stack.push(v);
        self.sum_x = self.sum_x + v.x as i64;
        self.sum_y = self.sum_y + v.y as i64;
        proof {
            assert(self.stack@.drop_last() == old(self)@);
        }
    }

    /// Takes back the most recent offset; on an empty stack nothing changes.
    pub fn pop(&mut self) -> (r: Option<Vec2>)
        requires
            old(self).wf(),
        ensures
            final(self).wf(),
            old(self)@.len() == 0 ==> r is None && final(self)@ == old(self)@,
            old(self)@.len() > 0 ==> r == Some(old(self)@.last()) && final(self)@
                == old(self)@.drop_last(),
    {
        match self.stack.pop() {
            Some(v) => {
                proof {
                    lemma_sum_bounds(self.stack@);
                }
                self.sum_x = self.sum_x - v.x as i64;
                self.sum_y = self.sum_y - v.y as i64;
                Some(v)
            },
            None => None,
        }
    }

    /// The offset in force: the sum of the stack.
    pub fn current(&self) -> (r: Point)
        requires
            self.wf(),
        ensures
            (r.x as int, r.y as int) == total_offset(self@),
    {
        Point { x: self.sum_x, y: self.sum_y }
    }

    pub fn depth(&self) -> (r: usize)
        ensures
            r == self@.len(),
    {
        self.stack.len()
    }
}

} // verus!
