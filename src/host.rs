//! The drawing functions that scripts call. Each checks its arguments and,
//! when they are right, records exactly one command; when they are wrong it
//! records nothing and reports why.
use std::rc::Rc;
use vstd::prelude::*;

use crate::cache::{spec_scale_key, TextLayoutCache};
use crate::commands::{CommandBuffer, GraphicsCalls};
use crate::geometry::{pixels_of, spec_pixels_of, white_with_alpha, Color, Rect, Size, Vec2};

verus! {

/// One argument of a call from a script, as the host sees it. Numbers are in units.
pub enum ScriptArg {
    Number(i32),
    Text(String),
    Bool(bool),
    Color(Color),
    Image(String),
    Font,
    Function,
    Other,
}

/// The kind of argument a host function expects at a position.
#[derive(Clone, Copy, Debug, PartialEq, Eq, Structural)]
pub enum ArgKind {
    Number,
    Text,
    Bool,
    Color,
    Image,
    Font,
    Function,
}

/// Why a host function refused its arguments; positions count from zero.
#[derive(Clone, Copy, Debug, PartialEq, Eq, Structural)]
pub enum ArgumentError {
    TooFew { expected: usize, got: usize },
    UnexpectedCount(usize),
    Expected(ArgKind, usize),
}

pub open spec fn has_kind(a: ScriptArg, k: ArgKind) -> bool {
    match k {
        ArgKind::Number => a is Number,
        ArgKind::Text => a is Text,
        ArgKind::Bool => a is Bool,
        ArgKind::Color => a is Color,
        ArgKind::Image => a is Image,
        ArgKind::Font => a is Font,
        ArgKind::Function => a is Function,
    }
}

/// The first position below `kinds.len()` whose argument is not of the kind
/// expected there, as an error; `None` when all match.
pub open spec fn first_mismatch(args: Seq<ScriptArg>, kinds: Seq<ArgKind>) -> Option<ArgumentError>
    decreases kinds.len(),
{
    if kinds.len() == 0 {
        None
    } else {
        match first_mismatch(args, kinds.drop_last()) {
            Some(e) => Some(e),
            None => {
                let i = kinds.len() - 1;
                if has_kind(args[i], kinds[i]) {
                    None
                } else {
                    Some(ArgumentError::Expected(kinds[i], i as usize))
                }
            },
        }
    }
}

fn arg_has_kind(a: &ScriptArg, k: ArgKind) -> (r: bool)
    ensures
        r == has_kind(*a, k),
{
    match k {
        ArgKind::Number => matches!(a, ScriptArg::Number(_)),
        ArgKind::Text => matches!(a, ScriptArg::Text(_)),
        ArgKind::Bool => matches!(a, ScriptArg::Bool(_)),
        ArgKind::Color => matches!(a, ScriptArg::Color(_)),
        ArgKind::Image => matches!(a, ScriptArg::Image(_)),
        ArgKind::Font => matches!(a, ScriptArg::Font),
        ArgKind::Function => matches!(a, ScriptArg::Function),
    }
}

/// Checks the first `kinds.len()` arguments against `kinds`, in order.
pub fn check_kinds(args: &Vec<ScriptArg>, kinds: &Vec<ArgKind>) -> (r: Option<ArgumentError>)
    requires
        kinds@.len() <= args@.len(),
    ensures
        r == first_mismatch(args@, kinds@),
{
    let mut i: usize = 0;
    while i < kinds.len()
        invariant
            i <= kinds@.len() <= args@.len(),
            first_mismatch(args@, kinds@.take(i as int)) is None,
        decreases kinds@.len() - i,
    {
        proof {
            assert(kinds@.take(i + 1).drop_last() == kinds@.take(i as int));
        }
        if !arg_has_kind(&args[i], kinds[i]) {
            proof {
                lemma_mismatch_extends(args@, kinds@, i as int + 1);
            }
            return Some(ArgumentError::Expected(kinds[i], i));
        }
        i = i + 1;
    }
    proof {
        assert(kinds@.take(i as int) == kinds@);
    }
    None
}

/// A mismatch found in a prefix of `kinds` is the first mismatch of all of `kinds`.
proof fn lemma_mismatch_extends(args: Seq<ScriptArg>, kinds: Seq<ArgKind>, n: int)
    requires
        0 <= n <= kinds.len(),
        first_mismatch(args, kinds.take(n)) is Some,
    ensures
        first_mismatch(args, kinds) == first_mismatch(args, kinds.take(n)),
    decreases kinds.len() - n,
{
    if n < kinds.len() {
        assert(kinds.take(n + 1).drop_last() == kinds.take(n));
        lemma_mismatch_extends(args, kinds, n + 1);
    } else {
        assert(kinds.take(n) == kinds);
    }
}

pub open spec fn number_of(a: ScriptArg) -> i32 {
    match a {
        ScriptArg::Number(n) => n,
        _ => 0,
    }
}

pub open spec fn color_of(a: ScriptArg) -> Color {
    match a {
        ScriptArg::Color(c) => c,
        _ => Color::spec_black(),
    }
}

pub open spec fn string_of(a: ScriptArg) -> String {
    match a {
        ScriptArg::Text(s) => s,
        ScriptArg::Image(s) => s,
        _ => arbitrary(),
    }
}

fn number_at(args: &Vec<ScriptArg>, i: usize) -> (r: i32)
    requires
        i < args@.len(),
        args@[i as int] is Number,
    ensures
        r == number_of(args@[i as int]),
{
    match &args[i] {
        ScriptArg::Number(n) => *n,
        _ => 0,
    }
}

fn color_at(args: &Vec<ScriptArg>, i: usize) -> (r: Color)
    requires
        i < args@.len(),
        args@[i as int] is Color,
    ensures
        r == color_of(args@[i as int]),
{
    match &args[i] {
        ScriptArg::Color(c) => *c,
        _ => Color::black(),
    }
}

fn text_at(args: &Vec<ScriptArg>, i: usize) -> (r: &String)
    requires
        i < args@.len(),
        args@[i as int] is Text || args@[i as int] is Image,
    ensures
        *r == string_of(args@[i as int]),
{
    match &args[i] {
        ScriptArg::Text(s) => s,
        ScriptArg::Image(s) => s,
        _ => vstd::pervasive::unreached(),
    }
}

/// What a checked call records: the command on success, the error otherwise.
pub open spec fn recorded<T>(
    old_buf: Seq<GraphicsCalls<T>>,
    new_buf: Seq<GraphicsCalls<T>>,
    r: Result<(), ArgumentError>,
    expected: Result<GraphicsCalls<T>, ArgumentError>,
) -> bool {
    match expected {
        Ok(call) => r is Ok && new_buf == old_buf.push(call),
        Err(e) => r == Err::<(), ArgumentError>(e) && new_buf == old_buf,
    }
}

/// `clear_screen([color])`: black with no argument, else the given colour.
pub open spec fn clear_screen_call<T>(args: Seq<ScriptArg>) -> Result<GraphicsCalls<T>, ArgumentError> {
    if args.len() == 0 {
        Ok(GraphicsCalls::ClearScreenBlack)
    } else if args[0] is Color {
        Ok(GraphicsCalls::ClearScreen(color_of(args[0])))
    } else {
        Err(ArgumentError::Expected(ArgKind::Color, 0))
    }
}

pub fn clear_screen<T>(buf: &mut CommandBuffer<T>, args: &Vec<ScriptArg>) -> (r: Result<(), ArgumentError>)
    ensures
        recorded(old(buf)@, final(buf)@, r, clear_screen_call::<T>(args@)),
{
    if args.len() == 0 {
        buf.append(GraphicsCalls::ClearScreenBlack);
        Ok(())
    } else if let ScriptArg::Color(c) = &args[0] {
        buf.append(GraphicsCalls::ClearScreen(*c));
        Ok(())
    } else {
        Err(ArgumentError::Expected(ArgKind::Color, 0))
    }
}

pub open spec fn rect_kinds() -> Seq<ArgKind> {
    seq![ArgKind::Number, ArgKind::Number, ArgKind::Number, ArgKind::Number, ArgKind::Color]
}

/// `draw_rectangle(x, y, w, h, color)`: the rectangle with top-left corner
/// `(x, y)` and the given width and height.
pub open spec fn draw_rectangle_call<T>(args: Seq<ScriptArg>) -> Result<GraphicsCalls<T>, ArgumentError> {
    if args.len() < 5 {
        Err(ArgumentError::TooFew { expected: 5, got: args.len() as usize })
    } else if let Some(e) = first_mismatch(args, rect_kinds()) {
        Err(e)
    } else {
        Ok(
            GraphicsCalls::DrawRectangle(
                Rect {
                    x: number_of(args[0]),
                    y: number_of(args[1]),
                    w: number_of(args[2]),
                    h: number_of(args[3]),
                },
                color_of(args[4]),
            ),
        )
    }
}

pub fn draw_rectangle<T>(buf: &mut CommandBuffer<T>, args: &Vec<ScriptArg>) -> (r: Result<
    (),
    ArgumentError,
>)
    ensures
        recorded(old(buf)@, final(buf)@, r, draw_rectangle_call::<T>(args@)),
{
    if args.len() < 5 {
        return Err(ArgumentError::TooFew { expected: 5, got: args.len() });
    }
    let kinds = vec![ArgKind::Number, ArgKind::Number, ArgKind::Number, ArgKind::Number, ArgKind::Color];
    proof {
        assert(kinds@ == rect_kinds());
    }
    if let Some(e) = check_kinds(args, &kinds) {
        return Err(e);
    }
    proof {
        lemma_kinds_hold(args@, rect_kinds());
    }
    let rect = Rect::from_corner_size(
        number_at(args, 0),
        number_at(args, 1),
        number_at(args, 2),
        number_at(args, 3),
    );
    buf.append(GraphicsCalls::DrawRectangle(rect, color_at(args, 4)));
    Ok(())
}

/// With no mismatch, every checked argument has its expected kind.
pub proof fn lemma_kinds_hold(args: Seq<ScriptArg>, kinds: Seq<ArgKind>)
    requires
        kinds.len() <= args.len(),
        first_mismatch(args, kinds) is None,
    ensures
        forall|i: int| 0 <= i < kinds.len() ==> has_kind(args[i], #[trigger] kinds[i]),
    decreases kinds.len(),
{
    if kinds.len() > 0 {
        lemma_kinds_hold(args, kinds.drop_last());
        assert forall|i: int| 0 <= i < kinds.len() implies has_kind(args[i], #[trigger] kinds[i]) by {
            if i < kinds.len() - 1 {
                assert(kinds.drop_last()[i] == kinds[i]);
            }
        }
    }
}

/// `Image` followed by `n` numbers.
pub open spec fn image_kinds(n: nat) -> Seq<ArgKind> {
    seq![ArgKind::Image] + Seq::new(n, |i: int| ArgKind::Number)
}

fn image_kinds_exec(n: usize) -> (r: Vec<ArgKind>)
    ensures
        r@ == image_kinds(n as nat),
{
    let mut r = vec![ArgKind::Image];
    let mut i: usize = 0;
    while i < n
        invariant
            i <= n,
            r@ == image_kinds(i as nat),
        decreases n - i,
    {
        r.push(ArgKind::Number);
        i = i + 1;
        proof {
            assert(r@ =~= image_kinds(i as nat));
        }
    }
    r
}

/// `draw_image(image, x, y)` draws at natural size; `draw_image(image, x, y,
/// w, h)` stretches it into the rectangle, tinted opaque white; a sixth
/// argument gives the alpha of the white tint. Any other count is refused.
pub open spec fn draw_image_call<T>(args: Seq<ScriptArg>) -> Result<GraphicsCalls<T>, ArgumentError> {
    let n = args.len();
    if n != 3 && n != 5 && n != 6 {
        Err(ArgumentError::UnexpectedCount(n as usize))
    } else if let Some(e) = first_mismatch(args, image_kinds((n - 1) as nat)) {
        Err(e)
    } else if n == 3 {
        Ok(
            GraphicsCalls::DrawImage(
                Vec2 { x: number_of(args[1]), y: number_of(args[2]) },
                string_of(args[0]),
            ),
        )
    } else {
        let r = Rect {
            x: number_of(args[1]),
            y: number_of(args[2]),
            w: number_of(args[3]),
            h: number_of(args[4]),
        };
        let tint = if n == 5 {
            Color::spec_white()
        } else {
            Color { r: 1000, g: 1000, b: 1000, a: number_of(args[5]) }
        };
        Ok(GraphicsCalls::DrawRectangleImageTinted(r, string_of(args[0]), tint))
    }
}

pub fn draw_image<T>(buf: &mut CommandBuffer<T>, args: &Vec<ScriptArg>) -> (r: Result<(), ArgumentError>)
    ensures
        recorded(old(buf)@, final(buf)@, r, draw_image_call::<T>(args@)),
{
    let n = args.len();
    if n != 3 && n != 5 && n != 6 {
        return Err(ArgumentError::UnexpectedCount(n));
    }
    let kinds = image_kinds_exec(n - 1);
    if let Some(e) = check_kinds(args, &kinds) {
        return Err(e);
    }
    proof {
        lemma_kinds_hold(args@, kinds@);
        assert forall|i: int| 1 <= i < n implies args@[i] is Number by {
            assert(kinds@[i] == ArgKind::Number);
        }
        assert(kinds@[0] == ArgKind::Image);
    }
    let path = text_at(args, 0).clone();
    if n == 3 {
        let pos = Vec2 { x: number_at(args, 1), y: number_at(args, 2) };
        buf.append(GraphicsCalls::DrawImage(pos, path));
    } else {
        let rect = Rect::from_corner_size(
            number_at(args, 1),
            number_at(args, 2),
            number_at(args, 3),
            number_at(args, 4),
        );
        let tint = if n == 5 {
            Color::white()
        } else {
            white_with_alpha(number_at(args, 5))
        };
        buf.append(GraphicsCalls::DrawRectangleImageTinted(rect, path, tint));
    }
    Ok(())
}

/// `set_resolution(w, h)`: the surface size in whole pixels; fractions are
/// dropped and negative numbers become zero.
pub open spec fn set_resolution_call<T>(args: Seq<ScriptArg>) -> Result<GraphicsCalls<T>, ArgumentError> {
    if args.len() < 2 {
        Err(ArgumentError::TooFew { expected: 2, got: args.len() as usize })
    } else if let Some(e) = first_mismatch(args, seq![ArgKind::Number, ArgKind::Number]) {
        Err(e)
    } else {
        Ok(
            GraphicsCalls::SetResolution(
                Size { w: spec_pixels_of(number_of(args[0])), h: spec_pixels_of(number_of(args[1])) },
            ),
        )
    }
}

pub fn set_resolution<T>(buf: &mut CommandBuffer<T>, args: &Vec<ScriptArg>) -> (r: Result<
    (),
    ArgumentError,
>)
    ensures
        recorded(old(buf)@, final(buf)@, r, set_resolution_call::<T>(args@)),
{
    if args.len() < 2 {
        return Err(ArgumentError::TooFew { expected: 2, got: args.len() });
    }
    let kinds = vec![ArgKind::Number, ArgKind::Number];
    proof {
        assert(kinds@ == seq![ArgKind::Number, ArgKind::Number]);
    }
    if let Some(e) = check_kinds(args, &kinds) {
        return Err(e);
    }
    proof {
        lemma_kinds_hold(args@, kinds@);
    }
    let size = Size { w: pixels_of(number_at(args, 0)), h: pixels_of(number_at(args, 1)) };
    buf.append(GraphicsCalls::SetResolution(size));
    Ok(())
}

/// The opening half of `with_offset(x, y, callback)`: the offset that
/// the callback's commands are drawn under.
pub open spec fn with_offset_call<T>(args: Seq<ScriptArg>) -> Result<GraphicsCalls<T>, ArgumentError> {
    if args.len() < 3 {
        Err(ArgumentError::TooFew { expected: 3, got: args.len() as usize })
    } else if let Some(e) = first_mismatch(
        args,
        seq![ArgKind::Number, ArgKind::Number, ArgKind::Function],
    ) {
        Err(e)
    } else {
        Ok(GraphicsCalls::PushOffset(Vec2 { x: number_of(args[0]), y: number_of(args[1]) }))
    }
}

/// Checks the arguments of `with_offset` and records its PushOffset. On `Ok`
/// the caller runs the callback and then calls `end_offset`, whatever the
/// callback did.
pub fn begin_offset<T>(buf: &mut CommandBuffer<T>, args: &Vec<ScriptArg>) -> (r: Result<
    (),
    ArgumentError,
>)
    ensures
        recorded(old(buf)@, final(buf)@, r, with_offset_call::<T>(args@)),
{
    if args.len() < 3 {
        return Err(ArgumentError::TooFew { expected: 3, got: args.len() });
    }
    let kinds = vec![ArgKind::Number, ArgKind::Number, ArgKind::Function];
    proof {
        assert(kinds@ == seq![ArgKind::Number, ArgKind::Number, ArgKind::Function]);
    }
    if let Some(e) = check_kinds(args, &kinds) {
        return Err(e);
    }
    proof {
        lemma_kinds_hold(args@, kinds@);
    }
    buf.append(GraphicsCalls::PushOffset(Vec2 { x: number_at(args, 0), y: number_at(args, 1) }));
    Ok(())
}

/// Closes the scope that `begin_offset` opened: records the PopOffset even
/// when the callback failed, then hands back the callback's own outcome.
pub fn end_offset<T, V, E>(buf: &mut CommandBuffer<T>, outcome: Result<V, E>) -> (r: Result<V, E>)
    ensures
        final(buf)@ == old(buf)@.push(GraphicsCalls::PopOffset),
        r == outcome,
{
    buf.append(GraphicsCalls::PopOffset);
    outcome
}

pub open spec fn text_kinds() -> Seq<ArgKind> {
    seq![ArgKind::Font, ArgKind::Text, ArgKind::Number, ArgKind::Number, ArgKind::Number, ArgKind::Color]
}

/// The checks of `draw_text(font, text, x, y, scale, color)`.
pub open spec fn draw_text_error(args: Seq<ScriptArg>) -> Option<ArgumentError> {
    if args.len() < 6 {
        Some(ArgumentError::TooFew { expected: 6, got: args.len() as usize })
    } else {
        first_mismatch(args, text_kinds())
    }
}

/// `draw_text(font, text, x, y, scale, color)`: the text block comes from
/// `cache`, the font's layout cache, which makes it with `create` only when no
/// block for this text and scale key is there yet.
pub fn draw_text<T, F: FnOnce() -> T>(
    buf: &mut CommandBuffer<T>,
    cache: &mut TextLayoutCache<T>,
    args: &Vec<ScriptArg>,
    create: F,
) -> (r: Result<(), ArgumentError>)
    requires
        old(cache).wf(),
        create.requires(()),
    ensures
        final(cache).wf(),
        match draw_text_error(args@) {
            Some(e) => r == Err::<(), ArgumentError>(e) && final(buf)@ == old(buf)@ && final(cache)@
                == old(cache)@,
            None => {
                let key = (string_of(args@[1])@, spec_scale_key(number_of(args@[4])));
                &&& r is Ok
                &&& final(buf)@.len() == old(buf)@.len() + 1
                &&& final(buf)@.drop_last() == old(buf)@
                &&& final(buf)@.last() matches GraphicsCalls::DrawText(p, c, block) && p == Vec2 {
                    x: number_of(args@[2]),
                    y: number_of(args@[3]),
                } && c == color_of(args@[5]) && final(cache)@.contains_key(key) && final(cache)@[key]
                    == block && (old(cache)@.contains_key(key) ==> old(cache)@[key] == block
                    && final(cache)@ == old(cache)@) && (!old(cache)@.contains_key(key)
                    ==> create.ensures((), *block) && final(cache)@ == old(cache)@.insert(
                    key,
                    block,
                ))
            },
        },
{
    if args.len() < 6 {
        return Err(ArgumentError::TooFew { expected: 6, got: args.len() });
    }
    let kinds = vec![ArgKind::Font, ArgKind::Text, ArgKind::Number, ArgKind::Number, ArgKind::Number, ArgKind::Color];
    proof {
        assert(kinds@ == text_kinds());
    }
    if let Some(e) = check_kinds(args, &kinds) {
        return Err(e);
    }
    proof {
        lemma_kinds_hold(args@, kinds@);
    }
    let block = cache.get_or_create(text_at(args, 1).as_str(), number_at(args, 4), create);
    let pos = Vec2 { x: number_at(args, 2), y: number_at(args, 3) };
    buf.append(GraphicsCalls::DrawText(pos, color_at(args, 5), block));
    Ok(())
}

/// The checks of `size_text(font, text, scale)`.
pub open spec fn size_text_error(args: Seq<ScriptArg>) -> Option<ArgumentError> {
    if args.len() < 3 {
        Some(ArgumentError::TooFew { expected: 3, got: args.len() as usize })
    } else {
        first_mismatch(args, seq![ArgKind::Font, ArgKind::Text, ArgKind::Number])
    }
}

/// `size_text(font, text, scale)`: the text block whose size the script asks
/// for, from the same cache `draw_text` uses. No command is recorded.
pub fn size_text<T, F: FnOnce() -> T>(
    cache: &mut TextLayoutCache<T>,
    args: &Vec<ScriptArg>,
    create: F,
) -> (r: Result<Rc<T>, ArgumentError>)
    requires
        old(cache).wf(),
        create.requires(()),
    ensures
        final(cache).wf(),
        match size_text_error(args@) {
            Some(e) => r == Err::<Rc<T>, ArgumentError>(e) && final(cache)@ == old(cache)@,
            None => {
                let key = (string_of(args@[1])@, spec_scale_key(number_of(args@[2])));
                &&& r matches Ok(block) && final(cache)@.contains_key(key) && final(cache)@[key]
                    == block
                &&& old(cache)@.contains_key(key) ==> r == Ok::<Rc<T>, ArgumentError>(
                    old(cache)@[key],
                ) && final(cache)@ == old(cache)@
            },
        },
{
    if args.len() < 3 {
        return Err(ArgumentError::TooFew { expected: 3, got: args.len() });
    }
    let kinds = vec![ArgKind::Font, ArgKind::Text, ArgKind::Number];
    proof {
        assert(kinds@ == seq![ArgKind::Font, ArgKind::Text, ArgKind::Number]);
    }
    if let Some(e) = check_kinds(args, &kinds) {
        return Err(e);
    }
    proof {
        lemma_kinds_hold(args@, kinds@);
    }
    Ok(cache.get_or_create(text_at(args, 1).as_str(), number_at(args, 2), create))
}

/// The path and run-now flag of `watch_json(path, callback[, run_immediately])`;
/// the flag is `true` when left out.
pub open spec fn watch_json_call(args: Seq<ScriptArg>) -> Result<(Seq<char>, bool), ArgumentError> {
    if args.len() < 2 {
        Err(ArgumentError::TooFew { expected: 2, got: args.len() as usize })
    } else if let Some(e) = first_mismatch(args, seq![ArgKind::Text, ArgKind::Function]) {
        Err(e)
    } else if args.len() == 2 {
        Ok((string_of(args[0])@, true))
    } else if let ScriptArg::Bool(b) = args[2] {
        Ok((string_of(args[0])@, b))
    } else {
        Err(ArgumentError::Expected(ArgKind::Bool, 2))
    }
}

pub fn watch_json_args(args: &Vec<ScriptArg>) -> (r: Result<(String, bool), ArgumentError>)
    ensures
        match watch_json_call(args@) {
            Ok((p, run)) => r matches Ok((q, b)) && q@ == p && b == run,
            Err(e) => r == Err::<(String, bool), ArgumentError>(e),
        },
{
    if args.len() < 2 {
        return Err(ArgumentError::TooFew { expected: 2, got: args.len() });
    }
    let kinds = vec![ArgKind::Text, ArgKind::Function];
    proof {
        assert(kinds@ == seq![ArgKind::Text, ArgKind::Function]);
    }
    if let Some(e) = check_kinds(args, &kinds) {
        return Err(e);
    }
    proof {
        lemma_kinds_hold(args@, kinds@);
    }
    let path = text_at(args, 0).clone();
    if args.len() == 2 {
        return Ok((path, true));
    }
    match &args[2] {
        ScriptArg::Bool(b) => Ok((path, *b)),
        _ => Err(ArgumentError::Expected(ArgKind::Bool, 2)),
    }
}

} // verus!
