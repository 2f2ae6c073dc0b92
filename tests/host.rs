use signrs::cache::TextLayoutCache;
use signrs::commands::{CommandBuffer, GraphicsCalls};
use signrs::geometry::{Color, Rect, Size, Vec2};
use signrs::host::{
    clear_screen, draw_image, draw_rectangle, draw_text, set_resolution, size_text, watch_json_args, ArgKind,
    ArgumentError, ScriptArg,
};

fn image() -> ScriptArg {
    ScriptArg::Image("img/logo.png".to_string())
}

fn n(v: i32) -> ScriptArg {
    ScriptArg::Number(v)
}

#[test]
fn draw_image_with_three_arguments_draws_at_natural_size() {
    let mut buf: CommandBuffer<String> = CommandBuffer::new();
    assert_eq!(draw_image(&mut buf, &vec![image(), n(1000), n(2000)]), Ok(()));
    assert_eq!(
        buf.drain(),
        vec![GraphicsCalls::DrawImage(Vec2 { x: 1000, y: 2000 }, "img/logo.png".to_string())]
    );
}

#[test]
fn draw_image_with_five_arguments_is_tinted_opaque_white() {
    let mut buf: CommandBuffer<String> = CommandBuffer::new();
    assert_eq!(draw_image(&mut buf, &vec![image(), n(1), n(2), n(30), n(40)]), Ok(()));
    assert_eq!(
        buf.drain(),
        vec![GraphicsCalls::DrawRectangleImageTinted(
            Rect { x: 1, y: 2, w: 30, h: 40 },
            "img/logo.png".to_string(),
            Color { r: 1000, g: 1000, b: 1000, a: 1000 },
        )]
    );
}

#[test]
fn draw_image_with_six_arguments_takes_the_alpha() {
    let mut buf: CommandBuffer<String> = CommandBuffer::new();
    assert_eq!(draw_image(&mut buf, &vec![image(), n(1), n(2), n(30), n(40), n(500)]), Ok(()));
    assert_eq!(
        buf.drain(),
        vec![GraphicsCalls::DrawRectangleImageTinted(
            Rect { x: 1, y: 2, w: 30, h: 40 },
            "img/logo.png".to_string(),
            Color { r: 1000, g: 1000, b: 1000, a: 500 },
        )]
    );
}

#[test]
fn draw_image_with_other_counts_records_nothing() {
    for count in [0usize, 1, 2, 4, 7, 9] {
        let mut buf: CommandBuffer<String> = CommandBuffer::new();
        let mut args = vec![image()];
        while args.len() < count {
            args.push(n(1));
        }
        args.truncate(count);
        assert_eq!(draw_image(&mut buf, &args), Err(ArgumentError::UnexpectedCount(count)));
        assert_eq!(buf.len(), 0);
    }
}

#[test]
fn draw_image_rejects_a_non_image_or_non_number() {
    let mut buf: CommandBuffer<String> = CommandBuffer::new();
    assert_eq!(
        draw_image(&mut buf, &vec![n(1), n(2), n(3)]),
        Err(ArgumentError::Expected(ArgKind::Image, 0))
    );
    assert_eq!(
        draw_image(&mut buf, &vec![image(), n(2), ScriptArg::Other, n(4), n(5)]),
        Err(ArgumentError::Expected(ArgKind::Number, 2))
    );
    assert_eq!(buf.len(), 0);
}

#[test]
fn clear_screen_with_a_colour_and_with_a_wrong_argument() {
    let mut buf: CommandBuffer<String> = CommandBuffer::new();
    let c = Color { r: 100, g: 200, b: 300, a: 400 };
    assert_eq!(clear_screen(&mut buf, &vec![ScriptArg::Color(c)]), Ok(()));
    assert_eq!(clear_screen(&mut buf, &vec![n(3)]), Err(ArgumentError::Expected(ArgKind::Color, 0)));
    assert_eq!(clear_screen(&mut buf, &vec![]), Ok(()));
    assert_eq!(buf.drain(), vec![GraphicsCalls::ClearScreen(c), GraphicsCalls::ClearScreenBlack]);
}

#[test]
fn draw_rectangle_needs_five_arguments() {
    let mut buf: CommandBuffer<String> = CommandBuffer::new();
    assert_eq!(
        draw_rectangle(&mut buf, &vec![n(1), n(2), n(3), n(4)]),
        Err(ArgumentError::TooFew { expected: 5, got: 4 })
    );
    assert_eq!(
        draw_rectangle(&mut buf, &vec![n(1), n(2), n(3), n(4), n(5)]),
        Err(ArgumentError::Expected(ArgKind::Color, 4))
    );
    assert_eq!(buf.len(), 0);
}

#[test]
fn set_resolution_drops_fractions_and_negatives() {
    let mut buf: CommandBuffer<String> = CommandBuffer::new();
    assert_eq!(set_resolution(&mut buf, &vec![n(1920_500), n(-3000)]), Ok(()));
    assert_eq!(set_resolution(&mut buf, &vec![n(1)]), Err(ArgumentError::TooFew { expected: 2, got: 1 }));
    assert_eq!(buf.drain(), vec![GraphicsCalls::SetResolution(Size { w: 1920, h: 0 })]);
}

#[test]
fn draw_text_records_the_cached_block() {
    let mut buf: CommandBuffer<String> = CommandBuffer::new();
    let mut cache: TextLayoutCache<String> = TextLayoutCache::new();
    let args = vec![
        ScriptArg::Font,
        ScriptArg::Text("hello".to_string()),
        n(5000),
        n(6000),
        n(18000),
        ScriptArg::Color(Color::white()),
    ];
    assert_eq!(draw_text(&mut buf, &mut cache, &args, || "hello@18".to_string()), Ok(()));
    assert_eq!(draw_text(&mut buf, &mut cache, &args, || "made twice".to_string()), Ok(()));
    let calls = buf.drain();
    assert_eq!(calls.len(), 2);
    match (&calls[0], &calls[1]) {
        (GraphicsCalls::DrawText(p, c, a), GraphicsCalls::DrawText(_, _, b)) => {
            assert_eq!(*p, Vec2 { x: 5000, y: 6000 });
            assert_eq!(*c, Color::white());
            assert_eq!(a.as_str(), "hello@18");
            assert!(std::rc::Rc::ptr_eq(a, b));
        }
        _ => panic!("expected two text commands"),
    }
    assert_eq!(cache.len(), 1);
}

#[test]
fn draw_text_checks_its_arguments() {
    let mut buf: CommandBuffer<String> = CommandBuffer::new();
    let mut cache: TextLayoutCache<String> = TextLayoutCache::new();
    let few = vec![ScriptArg::Font, ScriptArg::Text("x".to_string())];
    assert_eq!(
        draw_text(&mut buf, &mut cache, &few, || String::new()),
        Err(ArgumentError::TooFew { expected: 6, got: 2 })
    );
    let no_font = vec![n(1), ScriptArg::Text("x".to_string()), n(1), n(1), n(1), ScriptArg::Color(Color::black())];
    assert_eq!(
        draw_text(&mut buf, &mut cache, &no_font, || String::new()),
        Err(ArgumentError::Expected(ArgKind::Font, 0))
    );
    assert_eq!(buf.len(), 0);
    assert_eq!(cache.len(), 0);
}

#[test]
fn size_text_shares_the_draw_text_cache() {
    let mut cache: TextLayoutCache<String> = TextLayoutCache::new();
    let args = vec![ScriptArg::Font, ScriptArg::Text("abc".to_string()), n(12000)];
    let a = size_text(&mut cache, &args, || "abc@12".to_string()).unwrap();
    let b = size_text(&mut cache, &args, || "other".to_string()).unwrap();
    assert!(std::rc::Rc::ptr_eq(&a, &b));
    assert_eq!(
        size_text(&mut cache, &vec![ScriptArg::Font, n(1), n(1)], || String::new()),
        Err(ArgumentError::Expected(ArgKind::Text, 1))
    );
}

#[test]
fn watch_json_arguments_default_to_running_now() {
    let path = ScriptArg::Text("config.json".to_string());
    assert_eq!(
        watch_json_args(&vec![ScriptArg::Text("config.json".to_string()), ScriptArg::Function]),
        Ok(("config.json".to_string(), true))
    );
    assert_eq!(
        watch_json_args(&vec![path, ScriptArg::Function, ScriptArg::Bool(false)]),
        Ok(("config.json".to_string(), false))
    );
    assert_eq!(
        watch_json_args(&vec![ScriptArg::Text("a".to_string()), ScriptArg::Function, n(1)]),
        Err(ArgumentError::Expected(ArgKind::Bool, 2))
    );
    assert_eq!(
        watch_json_args(&vec![ScriptArg::Text("a".to_string())]),
        Err(ArgumentError::TooFew { expected: 2, got: 1 })
    );
    assert_eq!(
        watch_json_args(&vec![ScriptArg::Text("a".to_string()), ScriptArg::Other]),
        Err(ArgumentError::Expected(ArgKind::Function, 1))
    );
}
