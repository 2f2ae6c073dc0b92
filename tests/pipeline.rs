use std::rc::Rc;

use signrs::commands::{CommandBuffer, GraphicsCalls};
use signrs::geometry::{Bounds, Color, Point, Rect, Size, Vec2};
use signrs::host::{begin_offset, clear_screen, draw_rectangle, end_offset, ScriptArg};
use signrs::offset::OffsetStack;
use signrs::replay::{replay, DrawOp};

fn num(px: i32) -> ScriptArg {
    ScriptArg::Number(px * 1000)
}

fn red() -> Color {
    Color { r: 1000, g: 0, b: 0, a: 1000 }
}

#[test]
fn end_to_end_clear_rect_and_offset_rect() {
    let mut buf: CommandBuffer<String> = CommandBuffer::new();
    assert_eq!(clear_screen(&mut buf, &vec![]), Ok(()));
    let white = ScriptArg::Color(Color::white());
    assert_eq!(draw_rectangle(&mut buf, &vec![num(10), num(10), num(50), num(50), white]), Ok(()));
    assert_eq!(begin_offset(&mut buf, &vec![num(100), num(0), ScriptArg::Function]), Ok(()));
    // The callback body.
    let inner = draw_rectangle(&mut buf, &vec![num(0), num(0), num(10), num(10), ScriptArg::Color(red())]);
    assert_eq!(end_offset(&mut buf, inner), Ok(()));

    let calls = buf.drain();
    assert_eq!(calls.len(), 5);
    let mut stack = OffsetStack::new();
    let ops = replay(&mut stack, &calls);
    assert_eq!(
        ops,
        vec![
            DrawOp::Clear(Color::black()),
            DrawOp::FillRect(Bounds { left: 10000, top: 10000, right: 60000, bottom: 60000 }, Color::white()),
            DrawOp::FillRect(Bounds { left: 100000, top: 0, right: 110000, bottom: 10000 }, red()),
        ]
    );
    assert_eq!(stack.depth(), 0);
    assert_eq!(stack.current(), Point { x: 0, y: 0 });
}

#[test]
fn offset_scope_is_closed_when_callback_fails() {
    let mut buf: CommandBuffer<String> = CommandBuffer::new();
    assert_eq!(begin_offset(&mut buf, &vec![num(5), num(6), ScriptArg::Function]), Ok(()));
    let failed: Result<(), String> = Err("thrown".to_string());
    assert_eq!(end_offset(&mut buf, failed), Err("thrown".to_string()));
    let calls = buf.drain();
    assert_eq!(
        calls,
        vec![GraphicsCalls::PushOffset(Vec2 { x: 5000, y: 6000 }), GraphicsCalls::PopOffset]
    );
}

#[test]
fn replay_keeps_order_and_shifts_every_kind() {
    let block = Rc::new("shaped".to_string());
    let calls: Vec<GraphicsCalls<String>> = vec![
        GraphicsCalls::PushOffset(Vec2 { x: 1, y: 2 }),
        GraphicsCalls::DrawText(Vec2 { x: 10, y: 20 }, Color::white(), block.clone()),
        GraphicsCalls::PushOffset(Vec2 { x: 100, y: 200 }),
        GraphicsCalls::DrawImage(Vec2 { x: 0, y: 0 }, "a.png".to_string()),
        GraphicsCalls::PopOffset,
        GraphicsCalls::DrawRectangleImageTinted(Rect { x: 1, y: 1, w: 3, h: 4 }, "b.png".to_string(), Color::white()),
        GraphicsCalls::PopOffset,
        GraphicsCalls::SetResolution(Size { w: 640, h: 480 }),
        GraphicsCalls::ImageFileUpdate("a.png".to_string()),
        GraphicsCalls::ClearScreen(red()),
    ];
    let mut stack = OffsetStack::new();
    let ops = replay(&mut stack, &calls);
    assert_eq!(ops.len(), 6);
    match &ops[0] {
        DrawOp::Text(p, c, b) => {
            assert_eq!(*p, Point { x: 11, y: 22 });
            assert_eq!(*c, Color::white());
            assert!(Rc::ptr_eq(b, &block));
        }
        other => panic!("unexpected {:?}", other),
    }
    assert_eq!(ops[1], DrawOp::Image(Point { x: 101, y: 202 }, "a.png".to_string()));
    assert_eq!(
        ops[2],
        DrawOp::TintedImage(Bounds { left: 2, top: 3, right: 5, bottom: 7 }, "b.png".to_string(), Color::white())
    );
    assert_eq!(ops[3], DrawOp::SetResolution(Size { w: 640, h: 480 }));
    assert_eq!(ops[4], DrawOp::ReloadImage("a.png".to_string()));
    assert_eq!(ops[5], DrawOp::Clear(red()));
    assert_eq!(stack.depth(), 0);
}

#[test]
fn degenerate_rectangle_is_kept_as_given() {
    let mut buf: CommandBuffer<String> = CommandBuffer::new();
    let args = vec![num(10), num(10), num(-5), num(-5), ScriptArg::Color(Color::white())];
    assert_eq!(draw_rectangle(&mut buf, &args), Ok(()));
    let mut stack = OffsetStack::new();
    let ops = replay(&mut stack, buf.calls());
    assert_eq!(
        ops,
        vec![DrawOp::FillRect(Bounds { left: 10000, top: 10000, right: 5000, bottom: 5000 }, Color::white())]
    );
}

#[test]
fn hand_off_moves_the_frame_and_empties_the_producer() {
    let mut produced: CommandBuffer<String> = CommandBuffer::new();
    let mut published: CommandBuffer<String> = CommandBuffer::new();
    published.append(GraphicsCalls::ClearScreenBlack);
    produced.append(GraphicsCalls::PopOffset);
    produced.append(GraphicsCalls::SetResolution(Size { w: 1, h: 2 }));
    produced.hand_off(&mut published);
    assert_eq!(produced.len(), 0);
    assert_eq!(
        published.drain(),
        vec![GraphicsCalls::PopOffset, GraphicsCalls::SetResolution(Size { w: 1, h: 2 })]
    );
    assert_eq!(published.len(), 0);
}
