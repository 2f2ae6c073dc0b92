//! Replaying a frame: commands become renderer primitives in absolute
//! coordinates, under the offsets that PushOffset and PopOffset set up.
use std::rc::Rc;
use vstd::prelude::*;

use crate::commands::{share, GraphicsCalls};
use crate::geometry::{Bounds, Color, Point, Rect, Size, Vec2};
use crate::offset::{lemma_sum_bounds, sum_x, sum_y, total_offset, OffsetStack, MAX_DEPTH};

verus! {

/// One primitive call on the renderer, with every position already shifted.
#[derive(Debug, PartialEq)]
pub enum DrawOp<T> {
    Clear(Color),
    FillRect(Bounds, Color),
    Text(Point, Color, Rc<T>),
    Image(Point, String),
    TintedImage(Bounds, String, Color),
    SetResolution(Size),
    ReloadImage(String),
}

/// The stack after one command: PushOffset adds its vector, PopOffset takes the
/// top one if there is one, and every other command leaves it alone.
pub open spec fn step_stack<T>(s: Seq<Vec2>, call: GraphicsCalls<T>) -> Seq<Vec2> {
    match call {
        GraphicsCalls::PushOffset(v) => s.push(v),
        GraphicsCalls::PopOffset => if s.len() > 0 {
            s.drop_last()
        } else {
            s
        },
        _ => s,
    }
}

/// The stack after replaying `calls` from an empty one.
pub open spec fn stack_after<T>(calls: Seq<GraphicsCalls<T>>) -> Seq<Vec2>
    decreases calls.len(),
{
    if calls.len() == 0 {
        Seq::empty()
    } else {
        step_stack(stack_after(calls.drop_last()), calls.last())
    }
}

/// A position moved by an offset.
pub open spec fn moved(p: Vec2, off: (int, int)) -> Point {
    Point { x: (p.x + off.0) as i64, y: (p.y + off.1) as i64 }
}

/// A rectangle's corners moved by an offset.
pub open spec fn placed(r: Rect, off: (int, int)) -> Bounds {
    Bounds {
        left: (r.x + off.0) as i64,
        top: (r.y + off.1) as i64,
        right: (r.x + r.w + off.0) as i64,
        bottom: (r.y + r.h + off.1) as i64,
    }
}

/// What one command draws under the offset `off`.
pub open spec fn ops_of<T>(call: GraphicsCalls<T>, off: (int, int)) -> Seq<DrawOp<T>> {
    match call {
        GraphicsCalls::ClearScreenBlack => seq![DrawOp::Clear(Color::spec_black())],
        GraphicsCalls::ClearScreen(c) => seq![DrawOp::Clear(c)],
        GraphicsCalls::DrawRectangle(r, c) => seq![DrawOp::FillRect(placed(r, off), c)],
        GraphicsCalls::DrawText(p, c, t) => seq![DrawOp::Text(moved(p, off), c, t)],
        GraphicsCalls::DrawImage(p, path) => seq![DrawOp::Image(moved(p, off), path)],
        GraphicsCalls::DrawRectangleImageTinted(r, path, c) => seq![
            DrawOp::TintedImage(placed(r, off), path, c),
        ],
        GraphicsCalls::PushOffset(_) => seq![],
        GraphicsCalls::PopOffset => seq![],
        GraphicsCalls::SetResolution(s) => seq![DrawOp::SetResolution(s)],
        GraphicsCalls::ImageFileUpdate(path) => seq![DrawOp::ReloadImage(path)],
    }
}

/// Everything a frame draws, in the order its commands were recorded.
pub open spec fn replay_ops<T>(calls: Seq<GraphicsCalls<T>>) -> Seq<DrawOp<T>>
    decreases calls.len(),
{
    if calls.len() == 0 {
        Seq::empty()
    } else {
        replay_ops(calls.drop_last()) + ops_of(
            calls.last(),
            total_offset(stack_after(calls.drop_last())),
        )
    }
}

/// Replays one frame. The stack starts empty, whatever an earlier frame left
/// on it, and ends as the frame's PushOffset and PopOffset commands leave it.
pub fn replay<T>(stack: &mut OffsetStack, calls: &Vec<GraphicsCalls<T>>) -> (ops: Vec<DrawOp<T>>)
    requires
        calls@.len() <= MAX_DEPTH,
    ensures
        final(stack).wf(),
        final(stack)@ == stack_after(calls@),
        ops@ == replay_ops(calls@),
{
    stack.reset();
    let mut ops: Vec<DrawOp<T>> = Vec::new();
    let n = calls.len();
    for i in 0..n
        invariant
            n == calls@.len(),
            n <= MAX_DEPTH,
            stack.wf(),
            stack@ == stack_after(calls@.take(i as int)),
            stack@.len() <= i,
            ops@ == replay_ops(calls@.take(i as int)),
    {
        let ghost prefix = calls@.take(i as int);
        proof {
            assert(calls@.take(i + 1).drop_last() == prefix);
            assert(calls@.take(i + 1).last() == calls@[i as int]);
            lemma_sum_bounds(stack@);
        }
        let off = stack.current();
        match &calls[i] {
            GraphicsCalls::ClearScreenBlack => {
                ops.push(DrawOp::Clear(Color::black()));
            },
            GraphicsCalls::ClearScreen(c) => {
                ops.push(DrawOp::Clear(*c));
            },
            GraphicsCalls::DrawRectangle(r, c) => {
                ops.push(DrawOp::FillRect(place(r, off), *c));
            },
            GraphicsCalls::DrawText(p, c, t) => {
                ops.push(DrawOp::Text(move_by(p, off), *c, share(t)));
            },
            GraphicsCalls::DrawImage(p, path) => {
                ops.push(DrawOp::Image(move_by(p, off), path.clone()));
            },
            GraphicsCalls::DrawRectangleImageTinted(r, path, c) => {
                ops.push(DrawOp::TintedImage(place(r, off), path.clone(), *c));
            },
            GraphicsCalls::PushOffset(v) => {
                stack.push(*v);
            },
            GraphicsCalls::PopOffset => {
                stack.pop();
            },
            GraphicsCalls::SetResolution(s) => {
                ops.push(DrawOp::SetResolution(*s));
            },
            GraphicsCalls::ImageFileUpdate(path) => {
                ops.push(DrawOp::ReloadImage(path.clone()));
            },
        }
        proof {
            assert(ops@ =~= replay_ops(calls@.take(i + 1)));
        }
    }
    proof {
        assert(calls@.take(n as int) == calls@);
    }
    ops
}

/// Every vector that the PushOffset commands of `calls` push, in order.
pub open spec fn pushed<T>(calls: Seq<GraphicsCalls<T>>) -> Seq<Vec2>
    decreases calls.len(),
{
    if calls.len() == 0 {
        Seq::empty()
    } else {
        match calls.last() {
            GraphicsCalls::PushOffset(v) => pushed(calls.drop_last()).push(v),
            _ => pushed(calls.drop_last()),
        }
    }
}

/// Every vector that the PopOffset commands of `calls` take off the stack, in
/// order; a PopOffset that finds the stack empty takes nothing.
pub open spec fn popped<T>(calls: Seq<GraphicsCalls<T>>) -> Seq<Vec2>
    decreases calls.len(),
{
    if calls.len() == 0 {
        Seq::empty()
    } else {
        let before = stack_after(calls.drop_last());
        match calls.last() {
            GraphicsCalls::PopOffset => if before.len() > 0 {
                popped(calls.drop_last()).push(before.last())
            } else {
                popped(calls.drop_last())
            },
            _ => popped(calls.drop_last()),
        }
    }
}

/// After replaying any sequence of commands from a reset stack, the running
/// offset is the sum of the pushed vectors minus the sum of the popped
/// ones, and no more vectors are popped than were pushed: a PopOffset on an
/// empty stack changes nothing.
pub proof fn lemma_offset_is_pushed_minus_popped<T>(calls: Seq<GraphicsCalls<T>>)
    ensures
        sum_x(stack_after(calls)) == sum_x(pushed(calls)) - sum_x(popped(calls)),
        sum_y(stack_after(calls)) == sum_y(pushed(calls)) - sum_y(popped(calls)),
        popped(calls).len() <= pushed(calls).len(),
        stack_after(calls).len() == pushed(calls).len() - popped(calls).len(),
    decreases calls.len(),
{
    if calls.len() > 0 {
        lemma_offset_is_pushed_minus_popped(calls.drop_last());
        let before = stack_after(calls.drop_last());
        let pu = pushed(calls.drop_last());
        let po = popped(calls.drop_last());
        match calls.last() {
            GraphicsCalls::PushOffset(v) => {
                assert(before.push(v).drop_last() == before);
                assert(pu.push(v).drop_last() == pu);
            },
            GraphicsCalls::PopOffset => {
                if before.len() > 0 {
                    assert(po.push(before.last()).drop_last() == po);
                }
            },
            _ => {},
        }
    }
}

/// An offset that a stack of at most `MAX_DEPTH` entries can hold.
pub open spec fn in_offset_range(off: Point) -> bool {
    -0x4000_0000_0000_0000 <= off.x <= 0x4000_0000_0000_0000
        && -0x4000_0000_0000_0000 <= off.y <= 0x4000_0000_0000_0000
}

fn move_by(p: &Vec2, off: Point) -> (r: Point)
    requires
        in_offset_range(off),
    ensures
        r == moved(*p, (off.x as int, off.y as int)),
{
    Point { x: p.x as i64 + off.x, y: p.y as i64 + off.y }
}

fn place(r: &Rect, off: Point) -> (b: Bounds)
    requires
        in_offset_range(off),
    ensures
        b == placed(*r, (off.x as int, off.y as int)),
{
    Bounds {
        left: r.x as i64 + off.x,
        top: r.y as i64 + off.y,
        right: r.x as i64 + r.w as i64 + off.x,
        bottom: r.y as i64 + r.h as i64 + off.y,
    }
}

} // verus!
