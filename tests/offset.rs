use signrs::commands::GraphicsCalls;
use signrs::geometry::{Point, Vec2};
use signrs::offset::OffsetStack;
use signrs::replay::replay;

#[test]
fn running_sum_is_pushed_minus_popped() {
    let mut s = OffsetStack::new();
    s.push(Vec2 { x: 3, y: -4 });
    s.push(Vec2 { x: 10, y: 20 });
    assert_eq!(s.current(), Point { x: 13, y: 16 });
    assert_eq!(s.pop(), Some(Vec2 { x: 10, y: 20 }));
    assert_eq!(s.current(), Point { x: 3, y: -4 });
    s.push(Vec2 { x: -7, y: 1 });
    assert_eq!(s.current(), Point { x: -4, y: -3 });
    assert_eq!(s.depth(), 2);
}

#[test]
fn extra_pops_are_ignored() {
    let mut s = OffsetStack::new();
    assert_eq!(s.pop(), None);
    s.push(Vec2 { x: 5, y: 5 });
    assert_eq!(s.pop(), Some(Vec2 { x: 5, y: 5 }));
    assert_eq!(s.pop(), None);
    assert_eq!(s.pop(), None);
    assert_eq!(s.current(), Point { x: 0, y: 0 });
    assert_eq!(s.depth(), 0);
}

#[test]
fn reset_returns_to_zero() {
    let mut s = OffsetStack::new();
    s.push(Vec2 { x: 5, y: 6 });
    s.push(Vec2 { x: 1, y: 1 });
    s.reset();
    assert_eq!(s.current(), Point { x: 0, y: 0 });
    assert_eq!(s.depth(), 0);
}

#[test]
fn each_frame_replay_starts_from_zero() {
    let unbalanced: Vec<GraphicsCalls<String>> = vec![
        GraphicsCalls::PushOffset(Vec2 { x: 50, y: 50 }),
        GraphicsCalls::PushOffset(Vec2 { x: 1, y: 2 }),
    ];
    let mut s = OffsetStack::new();
    replay(&mut s, &unbalanced);
    assert_eq!(s.current(), Point { x: 51, y: 52 });
    let next: Vec<GraphicsCalls<String>> =
        vec![GraphicsCalls::PopOffset, GraphicsCalls::PopOffset, GraphicsCalls::PopOffset];
    replay(&mut s, &next);
    assert_eq!(s.current(), Point { x: 0, y: 0 });
    assert_eq!(s.depth(), 0);
}
