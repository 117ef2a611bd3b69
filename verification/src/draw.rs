//! What the bubble and the tray icon look like, and where the bubble goes.
use vstd::prelude::*;

use crate::text::to_wide;
#[allow(unused_imports)]
use crate::text::utf16;
use crate::ui::BubbleState;
#[allow(unused_imports)]
use crate::ui::{bubble_after, Bubble, WM_TIMER};

verus! {

// Small and minimal, in the Ash Lumen spirit: monochrome, hierarchy through luminance.
pub const BUBBLE_W: i32 = 78;

pub const BUBBLE_H: i32 = 30;

pub const MARGIN: i32 = 22;

pub const BARS: usize = 5;

pub const BAR_W: i32 = 3;

pub const BAR_GAP: i32 = 5;

pub const BAR_MIN_H: i32 = 3;

pub const BAR_MAX_H: i32 = 14;

/// How tall the bars are at rest.
pub const BAR_REST_H: i32 = 4;

/// Width and height of the tray icon.
pub const ICON_SIZE: usize = 32;

/// A rectangle on the screen or in a window.
#[derive(Clone, Copy, Debug, PartialEq, Eq, Structural)]
pub struct Rect {
    pub left: i32,
    pub top: i32,
    pub right: i32,
    pub bottom: i32,
}

/// The number that the system has for a colour.
pub open spec fn color_number(r: u8, g: u8, b: u8) -> int {
    r + 0x100 * g + 0x1_0000 * b
}

pub fn colorref(r: u8, g: u8, b: u8) -> (c: u32)
    ensures
        c == color_number(r, g, b),
{
    (r as u32) + 0x100 * (g as u32) + 0x1_0000 * (b as u32)
}

/// Half of `n`, towards zero.
pub open spec fn half(n: int) -> int {
    if n >= 0 {
        n / 2
    } else {
        -((-n) / 2)
    }
}

/// The bubble's position in `area` can be computed in 32 bits.
pub open spec fn can_place_in(area: Rect) -> bool {
    &&& i32::MIN <= area.right - area.left <= i32::MAX
    &&& i32::MIN <= area.right - area.left - BUBBLE_W
    &&& i32::MIN <= area.left + half(area.right - area.left - BUBBLE_W)
    &&& i32::MIN <= area.bottom - BUBBLE_H - MARGIN
}

/// Whether the bubble's position in `area` can be computed in 32 bits, as in any area that a
/// screen has.
pub fn can_place(area: &Rect) -> (r: bool)
    ensures
        r == can_place_in(*area),
{
    let width: i64 = area.right as i64 - area.left as i64;
    let spare: i64 = width - BUBBLE_W as i64;
    let offset: i64 = if spare >= 0 {
        spare / 2
    } else {
        -((-spare) / 2)
    };
    i32::MIN as i64 <= width && width <= i32::MAX as i64 && i32::MIN as i64 <= spare
        && i32::MIN as i64 <= area.left as i64 + offset && i32::MIN as i64 <= area.bottom as i64
        - BUBBLE_H as i64 - MARGIN as i64
}

/// Bottom-center of the work area, above the taskbar.
pub fn place(area: &Rect) -> (r: (i32, i32))
    requires
        can_place_in(*area),
    ensures
        r.0 == area.left + half(area.right - area.left - BUBBLE_W),
        r.1 == area.bottom - BUBBLE_H - MARGIN,
{
    let spare: i64 = area.right as i64 - area.left as i64 - BUBBLE_W as i64;
    let offset: i64 = if spare >= 0 {
        spare / 2
    } else {
        -((-spare) / 2)
    };
    ((area.left as i64 + offset) as i32, area.bottom - BUBBLE_H - MARGIN)
}

/// In an area with room for it the bubble lies inside, in the middle to the pixel, and off the
/// bottom by its margin.
pub proof fn law_bubble_is_centred(area: Rect, x: int, y: int)
    requires
        area.right - area.left >= BUBBLE_W,
        area.bottom - area.top >= BUBBLE_H + MARGIN,
        x == area.left + half(area.right - area.left - BUBBLE_W),
        y == area.bottom - BUBBLE_H - MARGIN,
    ensures
        area.left <= x,
        x + BUBBLE_W <= area.right,
        0 <= (area.right - (x + BUBBLE_W)) - (x - area.left) <= 1,
        area.top <= y,
        y + BUBBLE_H + MARGIN == area.bottom,
{
}

/// One bar of the equalizer.
#[derive(Clone, Copy, Debug, PartialEq, Eq, Structural)]
pub struct Bar {
    pub rect: Rect,
    pub color: u32,
}

/// The whole client area of the bubble.
pub fn client_area() -> (r: Rect)
    ensures
        r == (Rect { left: 0, top: 0, right: BUBBLE_W, bottom: BUBBLE_H }),
{
    Rect { left: 0, top: 0, right: BUBBLE_W, bottom: BUBBLE_H }
}

/// The pill colour.
pub fn background() -> (c: u32)
    ensures
        c == color_number(24, 24, 24),
{
    colorref(24, 24, 24)
}

/// Where the first bar stands: the row of bars is in the middle of the bubble.
pub open spec fn bars_left() -> int {
    (BUBBLE_W - (BARS * BAR_W + (BARS - 1) * BAR_GAP)) / 2
}

/// Bar number `i` with the height `h`: around the middle of the bubble.
pub open spec fn bar_rect(i: int, h: int) -> Rect {
    let x = bars_left() + i * (BAR_W + BAR_GAP);
    let cy = BUBBLE_H as int / 2;
    Rect {
        left: x as i32,
        top: (cy - h / 2) as i32,
        right: (x + BAR_W) as i32,
        bottom: (cy + h / 2) as i32,
    }
}

/// How tall the bars are in a frame while transcribing: they swell from their rest by one pixel
/// every eight frames, and sink back the same way.
pub open spec fn breath_height(frame: int) -> int {
    let phase = frame % 64;
    BAR_REST_H + if phase < 32 {
        phase / 8
    } else {
        (64 - phase) / 8
    }
}

/// A tiny equalizer. Monochrome by design: no hue, just luminance, the whole point of the
/// Ash Lumen look. Bars react while recording, with the heights in `live`; they settle into a slow
/// shared breath while transcribing, so the two states read differently without a label. A bubble
/// that is hidden has them at rest.
pub open spec fn bar_of(state: BubbleState, frame: u32, live: Seq<i32>, i: int) -> Bar {
    match state {
        BubbleState::Recording => Bar {
            rect: bar_rect(i, live[i] as int),
            color: color_number(210, 210, 210) as u32,
        },
        BubbleState::Transcribing => Bar {
            rect: bar_rect(i, breath_height(frame as int)),
            color: color_number(150, 150, 150) as u32,
        },
        BubbleState::Hidden => Bar {
            rect: bar_rect(i, BAR_REST_H as int),
            color: color_number(150, 150, 150) as u32,
        },
    }
}

/// How tall the bars are in a frame while transcribing.
fn breath(frame: u32) -> (h: i32)
    ensures
        h == breath_height(frame as int),
        BAR_MIN_H <= h <= BAR_MAX_H,
{
    let phase: i32 = (frame % 64) as i32;
    if phase < 32 {
        BAR_REST_H + phase / 8
    } else {
        BAR_REST_H + (64 - phase) / 8
    }
}

fn bar(i: usize, h: i32, luminance: u8) -> (r: Bar)
    requires
        i < BARS,
        BAR_MIN_H <= h <= BAR_MAX_H,
    ensures
        r == (Bar {
            rect: bar_rect(i as int, h as int),
            color: color_number(luminance, luminance, luminance) as u32,
        }),
{
    let total: i32 = BARS as i32 * BAR_W + (BARS as i32 - 1) * BAR_GAP;
    let x0: i32 = (BUBBLE_W - total) / 2;
    let cy: i32 = BUBBLE_H / 2;
    let step: i32 = BAR_W + BAR_GAP;
    assert(i * step == 8 * i) by (nonlinear_arith)
        requires
            step == 8,
    ;
    assert(i as int * (BAR_W + BAR_GAP) == i * step);
    let x: i32 = x0 + i as i32 * step;
    Bar {
        rect: Rect { left: x, top: cy - h / 2, right: x + BAR_W, bottom: cy + h / 2 },
        color: colorref(luminance, luminance, luminance),
    }
}

/// The bars to draw in the bubble, from left to right.
pub fn paint(state: BubbleState, frame: u32, live: &[i32; 5]) -> (r: Vec<Bar>)
    requires
        state == BubbleState::Recording ==> forall|i: int|
            0 <= i < BARS ==> BAR_MIN_H <= #[trigger] live[i] <= BAR_MAX_H,
    ensures
        r@.len() == BARS,
        forall|i: int| 0 <= i < BARS ==> #[trigger] r@[i] == bar_of(state, frame, live@, i),
{
    let mut out: Vec<Bar> = Vec::new();
    let mut i: usize = 0;
    while i < BARS
        invariant
            i <= BARS,
            out@.len() == i,
            state == BubbleState::Recording ==> forall|j: int|
                0 <= j < BARS ==> BAR_MIN_H <= #[trigger] live[j] <= BAR_MAX_H,
            forall|j: int| 0 <= j < i ==> #[trigger] out@[j] == bar_of(state, frame, live@, j),
        decreases BARS - i,
    {
        match state {
            BubbleState::Recording => out.push(bar(i, live[i], 210)),
            BubbleState::Transcribing => out.push(bar(i, breath(frame), 150)),
            BubbleState::Hidden => out.push(bar(i, BAR_REST_H, 150)),
        }
        i += 1;
    }
    out
}

/// Every bar lies inside the bubble, whatever is heard and whenever it is painted.
pub proof fn law_bars_stay_inside(state: BubbleState, frame: u32, live: Seq<i32>, i: int)
    requires
        0 <= i < BARS,
        BAR_MIN_H <= live[i] <= BAR_MAX_H,
    ensures
        ({
            let rect = bar_of(state, frame, live, i).rect;
            0 < rect.left < rect.right < BUBBLE_W && 0 < rect.top < rect.bottom < BUBBLE_H
        }),
{
}

/// Bars stand side by side with a gap between them.
pub proof fn law_bars_do_not_touch(state: BubbleState, frame: u32, live: Seq<i32>, i: int, j: int)
    requires
        0 <= i < j < BARS,
    ensures
        bar_of(state, frame, live, i).rect.right + BAR_GAP <= bar_of(
            state,
            frame,
            live,
            j,
        ).rect.left,
{
}

/// Without a recording the bars move as one: all share one height in each frame, and nothing that
/// is heard changes it.
pub proof fn law_breath_is_shared(
    state: BubbleState,
    frame: u32,
    live: Seq<i32>,
    also: Seq<i32>,
    i: int,
    j: int,
)
    requires
        state != BubbleState::Recording,
    ensures
        bar_of(state, frame, live, i) == bar_of(state, frame, also, i),
        bar_of(state, frame, live, i).rect.top == bar_of(state, frame, live, j).rect.top,
        bar_of(state, frame, live, i).rect.bottom == bar_of(state, frame, live, j).rect.bottom,
{
}

/// The breath is slow: from one frame to the next it changes by one pixel at most, also from the
/// last frame back to the first.
pub proof fn law_breath_is_slow(bubble: Bubble)
    ensures
        -1 <= breath_height(bubble_after(bubble, WM_TIMER).frame as int) - breath_height(
            bubble.frame as int,
        ) <= 1,
{
}

/// The breath never stops: whatever the frame, the bars have another height some three seconds
/// later at most, and that can be seen.
pub proof fn law_breath_never_stops(frame: u32, live: Seq<i32>, i: int) -> (later: int)
    ensures
        frame < later <= frame + 64,
        breath_height(later) != breath_height(frame as int),
        exists|f: u32, g: u32|
            #[trigger] bar_of(BubbleState::Transcribing, f, live, i).rect.top != #[trigger] bar_of(
                BubbleState::Transcribing,
                g,
                live,
                i,
            ).rect.top,
{
    assert(breath_height(0) == 4 && breath_height(32) == 8);
    let f = bar_of(BubbleState::Transcribing, 0, live, i);
    let g = bar_of(BubbleState::Transcribing, 32, live, i);
    assert(f.rect.top != g.rect.top);
    let phase = frame as int % 64;
    let low = frame + 64 - phase;
    let high = if phase < 32 {
        frame + 32 - phase
    } else {
        frame + 96 - phase
    };
    assert(breath_height(low) == 4 && breath_height(high) == 8);
    if breath_height(frame as int) == 4 {
        high
    } else {
        low
    }
}

/// Four times the squared distance of a pixel from the middle of the icon.
pub open spec fn centre_distance(x: int, y: int) -> int {
    (2 * x - 31) * (2 * x - 31) + (2 * y - 31) * (2 * y - 31)
}

/// A pixel at this distance is `a` parts in 255 inside the disc, at least.
///
/// The disc has the radius 12 and a soft edge of one pixel, so a pixel that is `d` away from the
/// middle is covered by `12.5 - d`, and this is `a <= 255 * (12.5 - d)` without the root in `d`.
pub open spec fn covers(distance: int, a: int) -> bool {
    65025 * distance <= (6375 - 2 * a) * (6375 - 2 * a)
}

/// `a` is the opacity of a pixel at this distance: as much of 255 as is covered, rounded down.
pub open spec fn is_opacity(distance: int, a: int) -> bool {
    &&& 0 <= a <= 255
    &&& a > 0 ==> covers(distance, a)
    &&& a < 255 ==> !covers(distance, a + 1)
}

/// The light gray of the disc, premultiplied with its opacity.
pub open spec fn icon_gray(a: int) -> int {
    224 * a / 255
}

/// The four bytes of one pixel, premultiplied BGRA.
pub open spec fn is_icon_pixel(pixels: Seq<u8>, x: int, y: int) -> bool {
    let i = (y * ICON_SIZE + x) * 4;
    &&& is_opacity(centre_distance(x, y), pixels[i + 3] as int)
    &&& pixels[i] == icon_gray(pixels[i + 3] as int)
    &&& pixels[i + 1] == icon_gray(pixels[i + 3] as int)
    &&& pixels[i + 2] == icon_gray(pixels[i + 3] as int)
}

/// There is one opacity for each distance, and less the farther out.
pub proof fn law_opacity_falls_off(near: int, far: int, a: int, b: int)
    requires
        0 <= near <= far,
        is_opacity(near, a),
        is_opacity(far, b),
    ensures
        b <= a,
        near == far ==> a == b,
{
    lemma_opacity_order(near, far, a, b);
    if near == far {
        lemma_opacity_order(far, near, b, a);
    }
}

proof fn lemma_opacity_order(near: int, far: int, a: int, b: int)
    requires
        near <= far,
        is_opacity(near, a),
        is_opacity(far, b),
    ensures
        b <= a,
{
    if b > a {
        assert(65025 * near <= (6375 - 2 * (a + 1)) * (6375 - 2 * (a + 1))) by (nonlinear_arith)
            requires
                near <= far,
                65025 * far <= (6375 - 2 * b) * (6375 - 2 * b),
                0 <= a < b <= 255,
        ;
    }
}

/// The icon is a disc: solid to the radius 11.5, clear from the radius 12.5 on.
pub proof fn law_icon_is_a_disc(x: int, y: int, a: int)
    requires
        is_opacity(centre_distance(x, y), a),
    ensures
        centre_distance(x, y) <= 23 * 23 ==> a == 255,
        centre_distance(x, y) >= 25 * 25 ==> a == 0,
{
    let d = centre_distance(x, y);
    if d <= 23 * 23 && a < 255 {
        assert((6375 - 2 * (a + 1)) * (6375 - 2 * (a + 1)) >= 5865 * 5865) by (nonlinear_arith)
            requires
                0 <= a < 255,
        ;
    }
    if d >= 25 * 25 && a > 0 {
        assert((6375 - 2 * a) * (6375 - 2 * a) < 6375 * 6375) by (nonlinear_arith)
            requires
                0 < a <= 255,
        ;
    }
}

/// How opaque the icon is at `x`, `y`.
fn opacity(x: u32, y: u32) -> (a: u32)
    requires
        x < ICON_SIZE,
        y < ICON_SIZE,
    ensures
        is_opacity(centre_distance(x as int, y as int), a as int),
{
    let dx: i64 = 2 * x as i64 - 31;
    let dy: i64 = 2 * y as i64 - 31;
    assert(0 <= dx * dx <= 31 * 31) by (nonlinear_arith)
        requires
            -31 <= dx <= 31,
    ;
    assert(0 <= dy * dy <= 31 * 31) by (nonlinear_arith)
        requires
            -31 <= dy <= 31,
    ;
    let distance: i64 = dx * dx + dy * dy;
    let mut a: u32 = 0;
    while a < 255
        invariant_except_break
            a <= 255,
            0 <= distance <= 2 * 31 * 31,
            a > 0 ==> covers(distance as int, a as int),
        ensures
            is_opacity(distance as int, a as int),
        decreases 255 - a,
    {
        let reach: i64 = 6375 - 2 * (a as i64 + 1);
        assert(0 <= reach * reach <= 6375 * 6375) by (nonlinear_arith)
            requires
                0 <= reach <= 6375,
        ;
        if 65025 * distance > reach * reach {
            break;
        }
        a += 1;
    }
    a
}

/// A plain filled circle, built in memory: no icon file, no build-script resource compiler.
///
/// The bytes are premultiplied BGRA, row by row.
pub fn icon_pixels() -> (r: Vec<u8>)
    ensures
        r@.len() == ICON_SIZE * ICON_SIZE * 4,
        forall|x: int, y: int|
            0 <= x < ICON_SIZE && 0 <= y < ICON_SIZE ==> #[trigger] is_icon_pixel(r@, x, y),
{
    let mut out: Vec<u8> = Vec::new();
    let mut y: u32 = 0;
    while y < 32
        invariant
            y <= 32,
            out@.len() == y * 32 * 4,
            forall|p: int, q: int|
                0 <= p < ICON_SIZE && 0 <= q < y ==> #[trigger] is_icon_pixel(out@, p, q),
        decreases 32 - y,
    {
        let mut x: u32 = 0;
        while x < 32
            invariant
                x <= 32,
                y < 32,
                out@.len() == (y * 32 + x) * 4,
                forall|p: int, q: int|
                    0 <= p < ICON_SIZE && 0 <= q < y ==> #[trigger] is_icon_pixel(out@, p, q),
                forall|p: int| 0 <= p < x ==> #[trigger] is_icon_pixel(out@, p, y as int),
            decreases 32 - x,
        {
            // Soft edge over one pixel so it does not look jagged in the tray.
            let a: u32 = opacity(x, y);
            let v: u32 = 224 * a / 255;
            let ghost before = out@;
            out.push(v as u8);
            out.push(v as u8);
            out.push(v as u8);
            out.push(a as u8);
            proof {
                assert(forall|i: int| 0 <= i < before.len() ==> out@[i] == before[i]);
                assert forall|p: int, q: int| 0 <= p < ICON_SIZE && 0 <= q < y implies
                    #[trigger] is_icon_pixel(out@, p, q) by {
                    assert(is_icon_pixel(before, p, q));
                }
                assert forall|p: int| 0 <= p < x implies #[trigger] is_icon_pixel(
                    out@,
                    p,
                    y as int,
                ) by {
                    assert(is_icon_pixel(before, p, y as int));
                }
                assert(is_icon_pixel(out@, x as int, y as int));
            }
            x += 1;
        }
        y += 1;
    }
    out
}

/// What the tray icon says about itself.
pub fn tip_text(hotkey: &str) -> (r: String)
    ensures
        r@ == "dictate \u{2014} hold "@ + hotkey@,
{
    let mut out = "dictate \u{2014} hold ".to_string();
    out.append(hotkey);
    out
}

/// What the tray icon says about itself, as the system takes it.
pub fn tip(hotkey: &str) -> (r: Vec<u16>)
    ensures
        r@ == utf16("dictate \u{2014} hold "@ + hotkey@).push(0),
{
    to_wide(tip_text(hotkey).as_str())
}

/// `tip` in a field of `room` code units: cut off at its end, or followed by zeros.
pub fn fit_tip(tip: &[u16], room: usize) -> (r: Vec<u16>)
    ensures
        r@ == Seq::new(
            room as nat,
            |i: int|
                if i < tip@.len() {
                    tip@[i]
                } else {
                    0u16
                },
        ),
{
    let mut out: Vec<u16> = Vec::new();
    while out.len() < room
        invariant
            out.len() <= room,
            forall|i: int|
                0 <= i < out.len() ==> #[trigger] out[i] == if i < tip@.len() {
                    tip@[i]
                } else {
                    0u16
                },
        decreases room - out.len(),
    {
        let i: usize = out.len();
        if i < tip.len() {
            out.push(tip[i]);
        } else {
            out.push(0);
        }
    }
    assert(out@ =~= Seq::new(
        room as nat,
        |i: int|
            if i < tip@.len() {
                tip@[i]
            } else {
                0u16
            },
    ));
    out
}

/// While recording each bar has the height that it was given, in every frame, and stands in its
/// place in the bright colour.
pub proof fn law_bars_follow_the_microphone(frame: u32, live: Seq<i32>, i: int)
    requires
        0 <= i < 5,
        3 <= live[i] <= 14,
    ensures
        ({
            let bar = bar_of(BubbleState::Recording, frame, live, i);
            &&& bar.rect.top == 15 - live[i] as int / 2
            &&& bar.rect.bottom == 15 + live[i] as int / 2
            &&& bar.rect.left == 21 + 8 * i
            &&& bar.rect.right == 24 + 8 * i
            &&& bar.color == 0x00d2_d2d2
        }),
{
}

/// While transcribing each bar is as tall as the breath, and at rest while hidden, in its place in
/// the dim colour.
pub proof fn law_bars_breathe_in_place(frame: u32, live: Seq<i32>, i: int)
    requires
        0 <= i < 5,
    ensures
        ({
            let bar = bar_of(BubbleState::Transcribing, frame, live, i);
            &&& bar.rect.top == 15 - breath_height(frame as int) / 2
            &&& bar.rect.bottom == 15 + breath_height(frame as int) / 2
            &&& bar.rect.left == 21 + 8 * i
            &&& bar.rect.right == 24 + 8 * i
            &&& bar.color == 0x0096_9696
        }),
        bar_of(BubbleState::Hidden, frame, live, i) == (Bar {
            rect: Rect {
                left: (21 + 8 * i) as i32,
                top: 13,
                right: (24 + 8 * i) as i32,
                bottom: 17,
            },
            color: 0x0096_9696,
        }),
{
}

/// The breath swells by one pixel every eight frames for half of its time and sinks back the same
/// way, over and over.
pub proof fn law_breath_swells_and_sinks(frame: int)
    requires
        frame >= 0,
    ensures
        4 <= breath_height(frame) <= 8,
        breath_height(frame + 64) == breath_height(frame),
        frame <= 64 ==> breath_height(64 - frame) == breath_height(frame),
        frame < 24 ==> breath_height(frame + 8) == breath_height(frame) + 1,
        frame == 0 ==> breath_height(frame) == 4,
{
}

/// A colour has its red in the lowest byte, its green above that and its blue on top.
pub proof fn law_colours_are_bytes(r: u8, g: u8, b: u8)
    ensures
        color_number(r, g, b) % 0x100 == r,
        color_number(r, g, b) / 0x100 % 0x100 == g,
        color_number(r, g, b) / 0x1_0000 == b,
{
}

/// The bubble is in the middle to the pixel in any area, and sticks out on both sides where there
/// is no room for it.
pub proof fn law_bubble_is_in_the_middle(left: int, right: int)
    ensures
        ({
            let x = left + half(right - left - 78);
            let spare_left = x - left;
            let spare_right = right - (x + 78);
            &&& right - left >= 78 ==> 0 <= spare_left <= spare_right <= spare_left + 1
            &&& right - left < 78 ==> spare_left - 1 <= spare_right <= spare_left <= 0
        }),
{
}

/// The bubble can be placed in any area that is not at the very edge of what 32 bits hold.
pub proof fn law_ordinary_areas_have_a_place(area: Rect)
    requires
        -0x4000_0000 < area.left <= area.right < 0x4000_0000,
        -0x4000_0000 < area.bottom < 0x4000_0000,
    ensures
        can_place_in(area),
{
}

} // verus!
