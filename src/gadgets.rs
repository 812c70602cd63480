//! User-interface gadgets over a stencil desktop: push buttons, proportional
//! gadgets, a bitmap font's text metrics, and desktop drawing helpers.
use vstd::prelude::*;

use crate::stencil::{filled, filled_byte, Dimension, Pattern, Point, Rect, Stencil, Unit};
use crate::view::{rect_contains, rect_contains_spec};
use vstd::string::StringSliceAdditionalSpecFns;

verus! {

/// Fill of the desktop background (50% grey).
pub const DESKTOP_PATTERN: Pattern = [0xAA, 0x55, 0xAA, 0x55, 0xAA, 0x55, 0xAA, 0x55];

/// All pixels clear.
pub const BLACK_PATTERN: Pattern = [0, 0, 0, 0, 0, 0, 0, 0];

/// All pixels set.
pub const WHITE_PATTERN: Pattern = [255, 255, 255, 255, 255, 255, 255, 255];

/// Paints the whole desktop with the desktop pattern.
pub fn draw_desktop(st: &mut Stencil)
    requires
        old(st).wf(),
    ensures
        final(st).wf(),
        final(st).width() == old(st).width(),
        final(st).height() == old(st).height(),
        (old(st).width() > 0 && old(st).height() > 0) ==> forall|x: int|
            0 <= x < old(st).bytes().len() ==> #[trigger] final(st).bytes()[x] == filled_byte(
                old(st).bytes(),
                old(st).width(),
                x,
                0,
                0,
                old(st).width(),
                old(st).height(),
                DESKTOP_PATTERN@,
            ),
        (old(st).width() == 0 || old(st).height() == 0) ==> final(st).bytes() == old(st).bytes(),
{
    let dims = st.get_dimensions();
    st.filled_rectangle((0, 0), dims, &DESKTOP_PATTERN);
}

/// Draws a dialog box: a one-pixel black border around `paper`, a black drop
/// shadow one pixel down and right, and the white paper itself.
pub fn draw_dialog_box(st: &mut Stencil, paper: Rect)
    requires
        old(st).wf(),
        isize::MIN + 2 <= paper.0.0 && paper.0.0 <= isize::MAX - 2,
        isize::MIN + 2 <= paper.0.1 && paper.0.1 <= isize::MAX - 2,
        isize::MIN + 2 <= paper.1.0 && paper.1.0 <= isize::MAX - 2,
        isize::MIN + 2 <= paper.1.1 && paper.1.1 <= isize::MAX - 2,
        isize::MIN <= paper.1.0 - paper.0.0 - 2 && paper.1.0 - paper.0.0 + 2 <= isize::MAX,
        isize::MIN <= paper.1.1 - paper.0.1 - 2 && paper.1.1 - paper.0.1 + 2 <= isize::MAX,
    ensures
        final(st).wf(),
        final(st).width() == old(st).width(),
        final(st).height() == old(st).height(),
        ({
            let ((l, t), (r, b)) = paper;
            let w = old(st).width();
            let shadow = filled(old(st).bytes(), w, l as int, t as int, r + 2, b + 2, BLACK_PATTERN@);
            let border = filled(shadow, w, l - 1, t - 1, r + 1, b + 1, BLACK_PATTERN@);
            final(st).bytes() == filled(border, w, l as int, t as int, r as int, b as int, WHITE_PATTERN@)
        }),
{
    let ((paper_left, paper_top), (paper_right, paper_bottom)) = paper;
    let border_left = paper_left - 1;
    let border_top = paper_top - 1;
    let border_right = paper_right + 1;
    let border_bottom = paper_bottom + 1;
    let shadow_left = border_left + 1;
    let shadow_top = border_top + 1;
    let shadow_right = border_right + 1;
    let shadow_bottom = border_bottom + 1;
    st.filled_rectangle((shadow_left, shadow_top), (shadow_right, shadow_bottom), &BLACK_PATTERN);
    st.filled_rectangle((border_left, border_top), (border_right, border_bottom), &BLACK_PATTERN);
    st.filled_rectangle((paper_left, paper_top), (paper_right, paper_bottom), &WHITE_PATTERN);
}

/// A proportional font: glyph `c` spans the pixel columns from `left_edges[c - lowest_char]`
/// to `left_edges[c - lowest_char + 1]` of the font bitmap; characters outside
/// `[lowest_char, highest_char]` use the glyph after `highest_char`.
pub struct SimpleBitmapFont {
    pub span: usize,
    pub height: Unit,
    pub baseline: Unit,
    pub bits: Vec<u8>,
    pub left_edges: Vec<u16>,
    pub lowest_char: u8,
    pub highest_char: u8,
}

impl SimpleBitmapFont {
    /// Every glyph, the fallback included, has an entry and a non-negative width.
    pub open spec fn wf(&self) -> bool {
        &&& self.lowest_char <= self.highest_char
        &&& self.left_edges@.len() >= self.highest_char - self.lowest_char + 3
        &&& forall|i: int, j: int|
            0 <= i <= j < self.left_edges@.len() ==> self.left_edges@[i] <= self.left_edges@[j]
    }

    /// Index of the glyph that stands for byte `b`.
    pub open spec fn glyph_index(&self, b: u8) -> int {
        if b < self.lowest_char || b > self.highest_char {
            self.highest_char + 1 - self.lowest_char
        } else {
            b - self.lowest_char
        }
    }

    /// Width in pixels of the glyph for byte `b`.
    pub open spec fn glyph_width(&self, b: u8) -> int {
        self.left_edges@[self.glyph_index(b) + 1] - self.left_edges@[self.glyph_index(b)]
    }

    /// Total width of the glyphs for `bytes`.
    pub open spec fn width_of(&self, bytes: Seq<u8>) -> int
        decreases bytes.len(),
    {
        if bytes.len() == 0 {
            0
        } else {
            self.width_of(bytes.drop_last()) + self.glyph_width(bytes.last())
        }
    }
}

/// Width in pixels of `text` (taken byte by byte) in `font`.
pub fn text_width(text: &str, font: &SimpleBitmapFont) -> (r: Dimension)
    requires
        font.wf(),
        text.spec_bytes().len() * 0x10000 <= isize::MAX,
    ensures
        r == font.width_of(text.spec_bytes()),
{
    let bytes = text.as_bytes();
    let mut total: isize = 0;
    let mut i: usize = 0;
    while i < bytes.len()
        invariant
            font.wf(),
            i <= bytes@.len(),
            bytes@.len() * 0x10000 <= isize::MAX,
            bytes@ == text.spec_bytes(),
            total == font.width_of(bytes@.subrange(0, i as int)),
            0 <= total <= i * 0x10000,
            i * 0x10000 <= bytes@.len() * 0x10000,
        decreases bytes@.len() - i,
    {
        let b = bytes[i];
        let index: usize = if b < font.lowest_char || b > font.highest_char {
            (font.highest_char as usize) + 1 - (font.lowest_char as usize)
        } else {
            (b - font.lowest_char) as usize
        };
        let w = font.left_edges[index + 1] - font.left_edges[index];
        assert(bytes@.subrange(0, i + 1).drop_last() =~= bytes@.subrange(0, i as int));
        total = total + w as isize;
        i = i + 1;
    }
    assert(bytes@.subrange(0, i as int) =~= bytes@);
    total
}

/// Result of a mouse event on a push button.
#[derive(Debug, Clone, Copy, PartialEq, Eq, Structural)]
pub enum PushButtonEvent {
    NoEvent,
    Clicked,
}

/// A push button occupying `area`, labelled with `label`.
pub struct PushButtonView<'l, 'f> {
    area: Rect,
    selected: bool,
    mouse_pt: Point,
    label: &'l str,
    font: &'f SimpleBitmapFont,
}

impl<'l, 'f> PushButtonView<'l, 'f> {
    pub closed spec fn area(&self) -> Rect {
        self.area
    }

    pub closed spec fn is_selected(&self) -> bool {
        self.selected
    }

    pub closed spec fn mouse(&self) -> Point {
        self.mouse_pt
    }

    /// An unselected button over `area`.
    pub fn new(area: Rect, label: &'l str, font: &'f SimpleBitmapFont) -> (r: Self)
        ensures
            r.area() == area,
            !r.is_selected(),
    {
        Self { area, label, font, selected: false, mouse_pt: (0, 0) }
    }

    /// Whether the mouse was last seen over the button.
    fn is_hot(&self) -> (b: bool)
        ensures
            b == rect_contains_spec(self.area, self.mouse_pt),
    {
        rect_contains(self.area, self.mouse_pt)
    }

    /// Ends a press: a click when the press began on the button and ends on it.
    pub fn release(&mut self) -> (e: PushButtonEvent)
        ensures
            e == if old(self).is_selected() && rect_contains_spec(old(self).area(), old(self).mouse()) {
                PushButtonEvent::Clicked
            } else {
                PushButtonEvent::NoEvent
            },
            !final(self).is_selected(),
            final(self).area() == old(self).area(),
    {
        let evt = if self.selected && self.is_hot() {
            PushButtonEvent::Clicked
        } else {
            PushButtonEvent::NoEvent
        };
        self.selected = false;
        evt
    }
}

/// Result of a mouse event on a proportional gadget.
#[derive(Debug, Clone, Copy, PartialEq, Eq)]
pub enum PropGadgetEvent {
    NoEvent,
    KnobMoved(Rect),
}

/// A proportional gadget: a knob that the mouse drags within a track.
pub struct PropGadgetView {
    track: Rect,
    knob: Rect,
    grabbed: bool,
    mouse_pt: Point,
}

pub open spec fn imax(a: isize, b: isize) -> isize {
    if a >= b { a } else { b }
}

pub open spec fn imin(a: isize, b: isize) -> isize {
    if a <= b { a } else { b }
}

/// `knob` clipped to `track`.
pub open spec fn clipped(knob: Rect, track: Rect) -> Rect {
    (
        (imax(knob.0.0, track.0.0), imax(knob.0.1, track.0.1)),
        (imin(knob.1.0, track.1.0), imin(knob.1.1, track.1.1)),
    )
}

/// Offset that moves the span `[lo, hi)` back inside `[t_lo, t_hi)`: first right
/// past `t_lo`, then left before `t_hi`.
pub open spec fn pull_in(lo: int, hi: int, t_lo: int, t_hi: int) -> int {
    let a = if t_lo - lo > 0 { t_lo - lo } else { 0 };
    let b = if t_hi - (hi + a) < 0 { t_hi - (hi + a) } else { 0 };
    a + b
}

/// `knob` moved by `(dx, dy)` and pulled back inside `track`.
pub open spec fn dragged(knob: Rect, track: Rect, dx: int, dy: int) -> (int, int, int, int) {
    let ox = pull_in(knob.0.0 + dx, knob.1.0 + dx, track.0.0 as int, track.1.0 as int);
    let oy = pull_in(knob.0.1 + dy, knob.1.1 + dy, track.0.1 as int, track.1.1 as int);
    (knob.0.0 + dx + ox, knob.0.1 + dy + oy, knob.1.0 + dx + ox, knob.1.1 + dy + oy)
}

/// Coordinates small enough that dragging arithmetic cannot overflow.
pub open spec fn small(v: isize) -> bool {
    isize::MIN / 16 <= v <= isize::MAX / 16
}

pub open spec fn small_rect(r: Rect) -> bool {
    small(r.0.0) && small(r.0.1) && small(r.1.0) && small(r.1.1)
}

fn max_of(a: isize, b: isize) -> (r: isize)
    ensures
        r == imax(a, b),
{
    if a >= b { a } else { b }
}

fn min_of(a: isize, b: isize) -> (r: isize)
    ensures
        r == imin(a, b),
{
    if a <= b { a } else { b }
}

impl PropGadgetView {
    pub closed spec fn track(&self) -> Rect {
        self.track
    }

    pub closed spec fn knob(&self) -> Rect {
        self.knob
    }

    pub closed spec fn is_grabbed(&self) -> bool {
        self.grabbed
    }

    pub closed spec fn mouse(&self) -> Point {
        self.mouse_pt
    }

    /// A gadget whose knob fills its track.
    pub fn new(track: Rect) -> (r: Self)
        ensures
            r.track() == track,
            r.knob() == track,
    {
        Self { track, knob: track, grabbed: false, mouse_pt: (0, 0) }
    }

    fn point_in_knob(&self) -> (b: bool)
        ensures
            b == rect_contains_spec(self.knob, self.mouse_pt),
    {
        rect_contains(self.knob, self.mouse_pt)
    }

    /// Sets the knob to `k` clipped to the track.
    pub fn set_knob(&mut self, k: Rect)
        ensures
            final(self).knob() == clipped(k, old(self).track()),
            final(self).track() == old(self).track(),
    {
        let ((left, top), (right, bottom)) = k;
        self.knob = (
            (max_of(left, self.track.0.0), max_of(top, self.track.0.1)),
            (min_of(right, self.track.1.0), min_of(bottom, self.track.1.1)),
        );
    }

    /// The knob's rectangle.
    pub fn get_knob(&self) -> (r: Rect)
        ensures
            r == self.knob(),
    {
        self.knob
    }

    /// The track's rectangle.
    pub fn get_track(&self) -> (r: Rect)
        ensures
            r == self.track(),
    {
        self.track
    }

    /// Follows the pointer to `to`; while the knob is grabbed, reports where the
    /// knob would go, moved with the pointer and kept inside the track.
    pub fn drag_to(&mut self, to: Point) -> (e: PropGadgetEvent)
        requires
            small(to.0) && small(to.1) && small(old(self).mouse().0) && small(old(self).mouse().1),
            small_rect(old(self).knob()) && small_rect(old(self).track()),
        ensures
            final(self).mouse() == to,
            final(self).knob() == old(self).knob(),
            final(self).track() == old(self).track(),
            final(self).is_grabbed() == old(self).is_grabbed(),
            !old(self).is_grabbed() ==> e == PropGadgetEvent::NoEvent,
            old(self).is_grabbed() ==> (e matches PropGadgetEvent::KnobMoved(k) && {
                let d = dragged(
                    old(self).knob(),
                    old(self).track(),
                    to.0 - old(self).mouse().0,
                    to.1 - old(self).mouse().1,
                );
                k.0.0 == d.0 && k.0.1 == d.1 && k.1.0 == d.2 && k.1.1 == d.3
            }),
    {
        let mut evt = PropGadgetEvent::NoEvent;
        if self.grabbed {
            let dx = to.0 - self.mouse_pt.0;
            let dy = to.1 - self.mouse_pt.1;
            let track_left = self.track.0.0;
            let track_top = self.track.0.1;
            let track_right = self.track.1.0;
            let track_bottom = self.track.1.1;
            let new_left = self.knob.0.0 + dx;
            let new_top = self.knob.0.1 + dy;
            let new_right = self.knob.1.0 + dx;
            let new_bottom = self.knob.1.1 + dy;
            let constraint_left = max_of(track_left - new_left, 0);
            let new_left = new_left + constraint_left;
            let new_right = new_right + constraint_left;
            let constraint_right = min_of(track_right - new_right, 0);
            let new_left = new_left + constraint_right;
            let new_right = new_right + constraint_right;
            let constraint_top = max_of(track_top - new_top, 0);
            let new_top = new_top + constraint_top;
            let new_bottom = new_bottom + constraint_top;
            let constraint_bottom = min_of(track_bottom - new_bottom, 0);
            let new_top = new_top + constraint_bottom;
            let new_bottom = new_bottom + constraint_bottom;
            evt = PropGadgetEvent::KnobMoved(((new_left, new_top), (new_right, new_bottom)));
        }
        self.mouse_pt = to;
        evt
    }

    /// Grabs the knob when the pointer is over it.
    pub fn press(&mut self)
        ensures
            final(self).is_grabbed() == (old(self).is_grabbed() || rect_contains_spec(old(self).knob(), old(self).mouse())),
            final(self).knob() == old(self).knob(),
            final(self).track() == old(self).track(),
            final(self).mouse() == old(self).mouse(),
    {
        if self.point_in_knob() {
            self.grabbed = true;
        }
    }

    /// Lets go of the knob.
    pub fn release(&mut self)
        ensures
            !final(self).is_grabbed(),
            final(self).knob() == old(self).knob(),
            final(self).track() == old(self).track(),
            final(self).mouse() == old(self).mouse(),
    {
        self.grabbed = false;
    }
}

} // verus!
