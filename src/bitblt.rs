//! Bit-blit support for monochrome bitmaps stored as rows of bytes.
use vstd::prelude::*;

verus! {

/// Mathematical view of a blit context.
pub struct BlitView {
    pub s_bits: Seq<u8>,
    pub s_ptr: usize,
    pub s_span: usize,
    pub s_shift: u8,
    pub s_mask: u8,
    pub s_data: u8,
    pub d_bits: Seq<u8>,
    pub d_ptr: usize,
    pub d_span: usize,
    pub operation: BlitOp,
    pub s_fc_mask: u8,
    pub s_lc_mask: u8,
}

/// How source and destination data combine in a blit.
#[derive(Debug, Clone, Copy, PartialEq, Eq, Structural)]
pub enum BlitOp {
    Black,
    Nor,
    NotDandS,
    NotD,
    DandNotS,
    NotS,
    Xor,
    Nand,
    And,
    Xnor,
    S,
    SorNotD,
    D,
    DorNotS,
    Or,
    White,
}

/// Working state of a blit: the source and destination bitmaps, their cursors,
/// the source shift and masks, and the operation.
pub struct BlitContext {
    pub s_bits: Vec<u8>,
    pub s_ptr: usize,
    pub s_span: usize,
    pub s_shift: u8,
    pub s_mask: u8,
    pub s_data: u8,
    pub d_bits: Vec<u8>,
    pub d_ptr: usize,
    pub d_span: usize,
    pub operation: BlitOp,
    pub s_fc_mask: u8,
    pub s_lc_mask: u8,
}

/// The byte that operation `op` makes of source byte `s` and destination byte `d`.
pub open spec fn combine(op: BlitOp, s: u8, d: u8) -> u8 {
    match op {
        BlitOp::Black => 0u8,
        BlitOp::Nor => !(s | d),
        BlitOp::NotDandS => !d & s,
        BlitOp::NotD => !d,
        BlitOp::DandNotS => d & !s,
        BlitOp::NotS => !s,
        BlitOp::Xor => s ^ d,
        BlitOp::Nand => !(s & d),
        BlitOp::And => s & d,
        BlitOp::Xnor => !(s ^ d),
        BlitOp::S => s,
        BlitOp::SorNotD => s | !d,
        BlitOp::D => d,
        BlitOp::DorNotS => d | !s,
        BlitOp::Or => s | d,
        BlitOp::White => 0xFFu8,
    }
}

/// Source byte `raw` shifted right by `shift`, its vacated high bits taken from `prev`.
pub open spec fn shifted_right(raw: u8, prev: u8, shift: u8) -> u8 {
    (((raw as u16) >> shift) | ((prev as u16) << (8 - shift) as u16)) as u8
}

/// Source byte `raw` shifted left by `shift`, its vacated low bits taken from `prev`.
pub open spec fn shifted_left(raw: u8, prev: u8, shift: u8) -> u8 {
    (((raw as u16) << shift) | ((prev as u16) >> (8 - shift) as u16)) as u8
}

/// Source mask applied to column `k` of a line `w` bytes wide.
pub open spec fn line_mask(fc: u8, lc: u8, k: int, w: int) -> u8 {
    if w == 1 {
        fc & lc
    } else if k == 0 {
        fc
    } else if k == w - 1 {
        lc
    } else {
        0xFF
    }
}

/// Index `k` steps from `p`, upward when `asc`, else downward.
pub open spec fn moved(p: usize, k: int, asc: bool) -> int {
    if asc {
        p + k
    } else {
        p - k
    }
}

/// The masked source byte read at column `k` of a line blit.
pub open spec fn raw_at(bc: BlitView, k: int, w: int, asc: bool) -> u8 {
    bc.s_bits[moved(bc.s_ptr, k, asc)] & line_mask(bc.s_fc_mask, bc.s_lc_mask, k, w)
}

/// The byte whose spilled bits column `k` receives.
pub open spec fn prev_at(bc: BlitView, k: int, w: int, asc: bool) -> u8 {
    if k == 0 {
        bc.s_data
    } else {
        raw_at(bc, k - 1, w, asc)
    }
}

/// The destination byte that column `k` of a line blit writes.
pub open spec fn line_byte(bc: BlitView, k: int, w: int, asc: bool) -> u8 {
    let s = if asc {
        shifted_right(raw_at(bc, k, w, asc), prev_at(bc, k, w, asc), bc.s_shift)
    } else {
        shifted_left(raw_at(bc, k, w, asc), prev_at(bc, k, w, asc), bc.s_shift)
    };
    combine(bc.operation, s, bc.d_bits[moved(bc.d_ptr, k, asc)])
}

/// `a` and `b` agree on everything but the cursors, `s_data`, `s_mask` and the destination bytes.
pub open spec fn same_setup(a: BlitView, b: BlitView) -> bool {
    &&& a.s_bits == b.s_bits
    &&& a.s_span == b.s_span
    &&& a.s_shift == b.s_shift
    &&& a.d_span == b.d_span
    &&& a.operation == b.operation
    &&& a.s_fc_mask == b.s_fc_mask
    &&& a.s_lc_mask == b.s_lc_mask
    &&& a.d_bits.len() == b.d_bits.len()
}

/// A cursor moved `w` steps; moving below index 0 wraps around.
pub open spec fn cursor_after(p: usize, w: int, asc: bool) -> usize {
    if asc {
        (p + w) as usize
    } else if p >= w {
        (p - w) as usize
    } else {
        (p - w + usize::MAX + 1) as usize
    }
}

/// The context after a line blit of `w` bytes from `bc`.
pub open spec fn line_done(bc: BlitView, after: BlitView, w: int, asc: bool) -> bool {
    &&& same_setup(bc, after)
    &&& after.s_ptr == cursor_after(bc.s_ptr, w, asc)
    &&& after.d_ptr == cursor_after(bc.d_ptr, w, asc)
    &&& w > 0 ==> after.s_data == raw_at(bc, w - 1, w, asc)
    &&& w == 0 ==> after.s_data == bc.s_data && after.s_mask == bc.s_mask
    &&& forall|k: int| 0 <= k < w ==> after.d_bits[moved(bc.d_ptr, k, asc)] == line_byte(bc, k, w, asc)
    &&& forall|j: int|
        0 <= j < bc.d_bits.len() && !(if asc {
            bc.d_ptr <= j < bc.d_ptr + w
        } else {
            bc.d_ptr - w < j <= bc.d_ptr
        }) ==> after.d_bits[j] == bc.d_bits[j]
}

impl View for BlitContext {
    type V = BlitView;

    open spec fn view(&self) -> BlitView {
        BlitView {
            s_bits: self.s_bits@,
            s_ptr: self.s_ptr,
            s_span: self.s_span,
            s_shift: self.s_shift,
            s_mask: self.s_mask,
            s_data: self.s_data,
            d_bits: self.d_bits@,
            d_ptr: self.d_ptr,
            d_span: self.d_span,
            operation: self.operation,
            s_fc_mask: self.s_fc_mask,
            s_lc_mask: self.s_lc_mask,
        }
    }
}

impl BlitContext {
    /// A context over `src` and `dst` with no shift, all masks 0xFF, operation `Or`,
    /// and both cursors at index 0.
    pub fn new(src: Vec<u8>, src_span: usize, dst: Vec<u8>, dst_span: usize) -> (r: Self)
        ensures
            r.s_bits@ == src@,
            r.d_bits@ == dst@,
            r.s_span == src_span,
            r.d_span == dst_span,
            r.s_ptr == 0,
            r.d_ptr == 0,
            r.s_shift == 0,
            r.s_data == 0,
            r.s_mask == 0xFF,
            r.s_fc_mask == 0xFF,
            r.s_lc_mask == 0xFF,
            r.operation == BlitOp::Or,
    {
        BlitContext {
            s_bits: src,
            s_ptr: 0,
            s_span: src_span,
            s_shift: 0,
            s_data: 0,
            s_mask: 0xFF,
            s_fc_mask: 0xFF,
            s_lc_mask: 0xFF,
            d_bits: dst,
            d_ptr: 0,
            d_span: dst_span,
            operation: BlitOp::Or,
        }
    }
}

fn combine_exec(op: BlitOp, s: u8, d: u8) -> (r: u8)
    ensures
        r == combine(op, s, d),
{
    match op {
        BlitOp::Black => 0u8,
        BlitOp::Nor => !(s | d),
        BlitOp::NotDandS => !d & s,
        BlitOp::NotD => !d,
        BlitOp::DandNotS => d & !s,
        BlitOp::NotS => !s,
        BlitOp::Xor => s ^ d,
        BlitOp::Nand => !(s & d),
        BlitOp::And => s & d,
        BlitOp::Xnor => !(s ^ d),
        BlitOp::S => s,
        BlitOp::SorNotD => s | !d,
        BlitOp::D => d,
        BlitOp::DorNotS => d | !s,
        BlitOp::Or => s | d,
        BlitOp::White => 0xFFu8,
    }
}

/// Blits one byte: the masked source byte, shifted right with the spilled bits of
/// the previous one, is combined into the destination byte; both cursors move up.
pub fn blit_byte_ascending(bc: &mut BlitContext)
    requires
        old(bc).s_ptr < old(bc).s_bits@.len(),
        old(bc).d_ptr < old(bc).d_bits@.len(),
        old(bc).s_shift <= 8,
    ensures
        ({
            let o = old(bc)@;
            let raw = o.s_bits[o.s_ptr as int] & o.s_mask;
            &&& same_setup(o, final(bc)@)
            &&& final(bc).s_mask == o.s_mask
            &&& final(bc).d_bits@ == o.d_bits.update(
                o.d_ptr as int,
                combine(o.operation, shifted_right(raw, o.s_data, o.s_shift), o.d_bits[o.d_ptr as int]),
            )
            &&& final(bc).s_ptr == o.s_ptr.wrapping_add(1)
            &&& final(bc).d_ptr == o.d_ptr.wrapping_add(1)
            &&& final(bc).s_data == raw
        }),
{
    let raw_s = bc.s_bits[bc.s_ptr] & bc.s_mask;
    let s = (((raw_s as u16) >> bc.s_shift) | ((bc.s_data as u16) << (8 - bc.s_shift) as u16)) as u8;
    let d = combine_exec(bc.operation, s, bc.d_bits[bc.d_ptr]);
    bc.d_bits.set(bc.d_ptr, d);
    bc.d_ptr = bc.d_ptr.wrapping_add(1);
    bc.s_ptr = bc.s_ptr.wrapping_add(1);
    bc.s_data = raw_s;
}

/// Blits one byte: the masked source byte, shifted left with the spilled bits of
/// the previous one, is combined into the destination byte; both cursors move down.
pub fn blit_byte_descending(bc: &mut BlitContext)
    requires
        old(bc).s_ptr < old(bc).s_bits@.len(),
        old(bc).d_ptr < old(bc).d_bits@.len(),
        old(bc).s_shift <= 8,
    ensures
        ({
            let o = old(bc)@;
            let raw = o.s_bits[o.s_ptr as int] & o.s_mask;
            &&& same_setup(o, final(bc)@)
            &&& final(bc).s_mask == o.s_mask
            &&& final(bc).d_bits@ == o.d_bits.update(
                o.d_ptr as int,
                combine(o.operation, shifted_left(raw, o.s_data, o.s_shift), o.d_bits[o.d_ptr as int]),
            )
            &&& final(bc).s_ptr == o.s_ptr.wrapping_sub(1)
            &&& final(bc).d_ptr == o.d_ptr.wrapping_sub(1)
            &&& final(bc).s_data == raw
        }),
{
    let raw_s = bc.s_bits[bc.s_ptr] & bc.s_mask;
    let s = (((raw_s as u16) << bc.s_shift) | ((bc.s_data as u16) >> (8 - bc.s_shift) as u16)) as u8;
    let d = combine_exec(bc.operation, s, bc.d_bits[bc.d_ptr]);
    bc.d_bits.set(bc.d_ptr, d);
    bc.d_ptr = bc.d_ptr.wrapping_sub(1);
    bc.s_ptr = bc.s_ptr.wrapping_sub(1);
    bc.s_data = raw_s;
}

/// Blits a line of `width` bytes upward from the cursors, shifting source data
/// right; the first and last columns take their own masks.
pub fn blit_line_ascending(bc: &mut BlitContext, width: usize)
    requires
        old(bc).s_ptr + width <= old(bc).s_bits@.len(),
        old(bc).d_ptr + width <= old(bc).d_bits@.len(),
        old(bc).s_shift <= 8,
    ensures
        line_done(old(bc)@, final(bc)@, width as int, true),
{
    let ghost o = bc@;
    let s_len = bc.s_bits.len();
    let d_len = bc.d_bits.len();
    if width == 0 {
        return;
    }
    if width == 1 {
        bc.s_mask = bc.s_fc_mask & bc.s_lc_mask;
        blit_byte_ascending(bc);
        return;
    }
    bc.s_mask = bc.s_fc_mask;
    blit_byte_ascending(bc);
    bc.s_mask = 0xFF;
    let mut i: usize = 1;
    while i < width - 1
        invariant
            1 <= i <= width - 1,
            width >= 2,
            o.s_bits.len() == s_len,
            o.d_bits.len() == d_len,
            o.s_ptr + width <= o.s_bits.len(),
            o.d_ptr + width <= o.d_bits.len(),
            same_setup(o, bc@),
            bc.s_mask == 0xFF,
            bc.s_ptr == o.s_ptr + i,
            bc.d_ptr == o.d_ptr + i,
            bc.s_shift <= 8,
            bc.s_data == raw_at(o, i - 1, width as int, true),
            forall|k: int| 0 <= k < i ==> bc.d_bits@[o.d_ptr + k] == line_byte(o, k, width as int, true),
            forall|j: int|
                0 <= j < o.d_bits.len() && !(o.d_ptr + i <= j < o.d_ptr + width) ==> (!(o.d_ptr
                    <= j < o.d_ptr + i) ==> bc.d_bits@[j] == o.d_bits[j]),
            forall|j: int| o.d_ptr + i <= j < o.d_ptr + width ==> bc.d_bits@[j] == o.d_bits[j],
        decreases width - 1 - i,
    {
        assert(bc.s_bits@[bc.s_ptr as int] & 0xFF == bc.s_bits@[bc.s_ptr as int] & line_mask(
            o.s_fc_mask,
            o.s_lc_mask,
            i as int,
            width as int,
        ));
        blit_byte_ascending(bc);
        i = i + 1;
    }
    bc.s_mask = bc.s_lc_mask;
    blit_byte_ascending(bc);
}

/// Blits a line of `width` bytes downward from the cursors, shifting source data
/// left; the first and last columns take their own masks.
pub fn blit_line_descending(bc: &mut BlitContext, width: usize)
    requires
        width > 0 ==> old(bc).s_ptr < old(bc).s_bits@.len() && old(bc).d_ptr < old(
            bc,
        ).d_bits@.len() && width <= old(bc).s_ptr + 1 && width <= old(bc).d_ptr + 1,
        old(bc).s_shift <= 8,
    ensures
        line_done(old(bc)@, final(bc)@, width as int, false),
{
    let ghost o = bc@;
    let s_len = bc.s_bits.len();
    let d_len = bc.d_bits.len();
    if width == 0 {
        return;
    }
    if width == 1 {
        bc.s_mask = bc.s_fc_mask & bc.s_lc_mask;
        blit_byte_descending(bc);
        return;
    }
    bc.s_mask = bc.s_fc_mask;
    blit_byte_descending(bc);
    bc.s_mask = 0xFF;
    let mut i: usize = 1;
    while i < width - 1
        invariant
            1 <= i <= width - 1,
            width >= 2,
            o.s_bits.len() == s_len,
            o.d_bits.len() == d_len,
            o.s_ptr < o.s_bits.len(),
            o.d_ptr < o.d_bits.len(),
            width <= o.s_ptr + 1,
            width <= o.d_ptr + 1,
            same_setup(o, bc@),
            bc.s_mask == 0xFF,
            bc.s_ptr == o.s_ptr - i,
            bc.d_ptr == o.d_ptr - i,
            bc.s_shift <= 8,
            bc.s_data == raw_at(o, i - 1, width as int, false),
            forall|k: int| 0 <= k < i ==> bc.d_bits@[o.d_ptr - k] == line_byte(o, k, width as int, false),
            forall|j: int|
                0 <= j < o.d_bits.len() && !(o.d_ptr - width < j <= o.d_ptr) ==> bc.d_bits@[j]
                    == o.d_bits[j],
            forall|j: int| o.d_ptr - width < j <= o.d_ptr - i ==> bc.d_bits@[j] == o.d_bits[j],
        decreases width - 1 - i,
    {
        assert(bc.s_bits@[bc.s_ptr as int] & 0xFF == bc.s_bits@[bc.s_ptr as int] & line_mask(
            o.s_fc_mask,
            o.s_lc_mask,
            i as int,
            width as int,
        ));
        blit_byte_descending(bc);
        i = i + 1;
    }
    bc.s_mask = bc.s_lc_mask;
    blit_byte_descending(bc);
}

/// Mask keeping the pixels from bit position `i` (0 = leftmost) to the right end of a byte.
pub open spec fn from_pixel_mask(i: u64) -> u8 {
    (0xFFu8 >> i) as u8
}

/// Mask keeping the pixels up to and including bit position `i` (0 = leftmost) of a byte.
pub open spec fn through_pixel_mask(i: u64) -> u8 {
    !((0x7Fu8 >> i) as u8)
}

fn from_pixel(i: usize) -> (r: u8)
    requires
        i < 8,
    ensures
        r == from_pixel_mask(i as u64),
{
    0xFFu8 >> (i as u8)
}

fn through_pixel(i: usize) -> (r: u8)
    requires
        i < 8,
    ensures
        r == through_pixel_mask(i as u64),
{
    !(0x7Fu8 >> (i as u8))
}

/// The arithmetic that `prepare_blit_rect` performs stays within `usize`.
pub open spec fn rect_in_range(
    s_span: usize,
    d_span: usize,
    src_left: usize,
    src_top: usize,
    src_right: usize,
    src_bottom: usize,
    dst_left: usize,
    dst_top: usize,
) -> bool {
    let w = src_right - src_left;
    let h = src_bottom - src_top;
    &&& src_left < src_right
    &&& src_top < src_bottom
    &&& dst_left + w <= usize::MAX
    &&& dst_top + h <= usize::MAX
    &&& s_span * (src_bottom - 1) + src_right / 8 + 2 <= usize::MAX
    &&& d_span * (dst_top + h - 1) + (dst_left + w) / 8 + 2 <= usize::MAX
}

/// Width in bytes a rectangle blit processes: the larger of the byte widths of the
/// source and destination rectangles.
pub open spec fn rect_width(src_left: usize, src_right: usize, dst_left: usize) -> int {
    let w = src_right - src_left;
    let s_w = (src_right - 1) / 8 - src_left / 8 + 1;
    let d_w = (dst_left + w - 1) / 8 - dst_left / 8 + 1;
    if s_w >= d_w {
        s_w
    } else {
        d_w
    }
}

/// Whether a rectangle blit from `src_left` to `dst_left` runs ascending (source shifted right).
pub open spec fn rect_ascending(src_left: usize, dst_left: usize) -> bool {
    src_left % 8 < dst_left % 8
}

/// The context configured for a rectangle blit.
pub open spec fn prepared(
    o: BlitView,
    src_left: usize,
    src_top: usize,
    src_right: usize,
    src_bottom: usize,
    dst_left: usize,
    dst_top: usize,
    op: BlitOp,
) -> BlitView {
    let w = rect_width(src_left, src_right, dst_left);
    let h = src_bottom - src_top;
    let asc = rect_ascending(src_left, dst_left);
    BlitView {
        s_ptr: (if asc {
            o.s_span * src_top + src_left / 8
        } else {
            o.s_span * (src_bottom - 1) + src_left / 8 + w - 1
        }) as usize,
        d_ptr: (if asc {
            o.d_span * dst_top + dst_left / 8
        } else {
            o.d_span * (dst_top + h - 1) + dst_left / 8 + w - 1
        }) as usize,
        s_shift: (if asc {
            dst_left % 8 - src_left % 8
        } else {
            src_left % 8 - dst_left % 8
        }) as u8,
        operation: op,
        s_fc_mask: if asc {
            from_pixel_mask((src_left % 8) as u64)
        } else {
            through_pixel_mask(((src_right - 1) % 8) as u64)
        },
        s_lc_mask: if asc {
            through_pixel_mask(((src_right - 1) % 8) as u64)
        } else {
            from_pixel_mask((src_left % 8) as u64)
        },
        ..o
    }
}

/// Configures `bc` for a rectangle blit of source pixels `[src_left, src_right)` ×
/// `[src_top, src_bottom)` to `(dst_left, dst_top)`, and answers the width in bytes,
/// the height, and whether the blit runs ascending (source shifted right).
pub fn prepare_blit_rect(
    bc: &mut BlitContext,
    src_left: usize,
    src_top: usize,
    src_right: usize,
    src_bottom: usize,
    dst_left: usize,
    dst_top: usize,
    op: BlitOp,
) -> (r: (usize, usize, bool))
    requires
        rect_in_range(
            old(bc).s_span,
            old(bc).d_span,
            src_left,
            src_top,
            src_right,
            src_bottom,
            dst_left,
            dst_top,
        ),
    ensures
        ({
            let o = old(bc)@;
            let b = final(bc)@;
            let w = rect_width(src_left, src_right, dst_left);
            let h = src_bottom - src_top;
            let asc = src_left % 8 < dst_left % 8;
            let dst_bottom = dst_top + h;
            &&& r == (w as usize, h as usize, asc)
            &&& b == prepared(o, src_left, src_top, src_right, src_bottom, dst_left, dst_top, op)
            &&& b.s_bits == o.s_bits
            &&& b.d_bits == o.d_bits
            &&& b.s_span == o.s_span
            &&& b.d_span == o.d_span
            &&& b.s_data == o.s_data
            &&& b.s_mask == o.s_mask
            &&& b.operation == op
            &&& b.s_shift == (if asc { dst_left % 8 - src_left % 8 } else { src_left % 8 - dst_left % 8 })
            &&& asc ==> {
                &&& b.s_ptr == o.s_span * src_top + src_left / 8
                &&& b.d_ptr == o.d_span * dst_top + dst_left / 8
                &&& b.s_fc_mask == from_pixel_mask((src_left % 8) as u64)
                &&& b.s_lc_mask == through_pixel_mask(((src_right - 1) % 8) as u64)
            }
            &&& !asc ==> {
                &&& b.s_ptr == o.s_span * (src_bottom - 1) + src_left / 8 + w - 1
                &&& b.d_ptr == o.d_span * (dst_bottom - 1) + dst_left / 8 + w - 1
                &&& b.s_fc_mask == through_pixel_mask(((src_right - 1) % 8) as u64)
                &&& b.s_lc_mask == from_pixel_mask((src_left % 8) as u64)
            }
        }),
{
    let height = src_bottom - src_top;
    let width_in_pixels = src_right - src_left;
    let inclusive_src_right = src_right - 1;
    let s_left_column = src_left >> 3;
    let s_right_column = inclusive_src_right >> 3;
    let s_right_pixel_in_byte = inclusive_src_right & 7;
    let dst_right = dst_left + width_in_pixels;
    let dst_bottom = dst_top + height;
    let inclusive_dst_right = dst_right - 1;
    let d_left_column = dst_left >> 3;
    let d_right_column = inclusive_dst_right >> 3;
    let s_left_pixel_in_byte = src_left & 7;
    let d_left_pixel_in_byte = dst_left & 7;
    assert(src_left >> 3 == src_left / 8 && inclusive_src_right >> 3 == inclusive_src_right / 8
        && inclusive_src_right & 7 == inclusive_src_right % 8 && src_left & 7 == src_left % 8 && dst_left >> 3
        == dst_left / 8 && inclusive_dst_right >> 3 == inclusive_dst_right / 8 && dst_left & 7
        == dst_left % 8) by (bit_vector);
    let ascending_mode = s_left_pixel_in_byte < d_left_pixel_in_byte;
    let s_width_in_bytes = s_right_column - s_left_column + 1;
    let d_width_in_bytes = d_right_column - d_left_column + 1;
    let width_in_bytes = if s_width_in_bytes >= d_width_in_bytes {
        s_width_in_bytes
    } else {
        d_width_in_bytes
    };
    assert(width_in_bytes <= src_right / 8 + 2);
    assert(width_in_bytes <= (dst_left + width_in_pixels) / 8 + 2);
    let s_ptr: usize;
    let d_ptr: usize;
    let s_fc_mask: u8;
    let s_lc_mask: u8;
    if ascending_mode {
        assert(bc.s_span * src_top <= bc.s_span * (src_bottom - 1)) by (nonlinear_arith)
            requires
                src_top <= src_bottom - 1,
        ;
        assert(bc.d_span * dst_top <= bc.d_span * (dst_top + height - 1)) by (nonlinear_arith)
            requires
                height >= 1,
        ;
        s_ptr = (bc.s_span * src_top) + s_left_column;
        d_ptr = (bc.d_span * dst_top) + d_left_column;
        s_fc_mask = from_pixel(s_left_pixel_in_byte);
        s_lc_mask = through_pixel(s_right_pixel_in_byte);
    } else {
        s_ptr = (bc.s_span * (src_bottom - 1)) + s_left_column + width_in_bytes - 1;
        d_ptr = (bc.d_span * (dst_bottom - 1)) + d_left_column + width_in_bytes - 1;
        s_fc_mask = through_pixel(s_right_pixel_in_byte);
        s_lc_mask = from_pixel(s_left_pixel_in_byte);
    }
    bc.s_ptr = s_ptr;
    bc.s_shift = if ascending_mode {
        (d_left_pixel_in_byte - s_left_pixel_in_byte) as u8
    } else {
        (s_left_pixel_in_byte - d_left_pixel_in_byte) as u8
    };
    bc.d_ptr = d_ptr;
    bc.operation = op;
    bc.s_fc_mask = s_fc_mask;
    bc.s_lc_mask = s_lc_mask;
    (width_in_bytes, height, ascending_mode)
}

/// The context at the start of row `r` of a rectangle blit: each channel's cursor
/// moved by `r` rows of its span (up the bitmap when descending).
pub open spec fn row_start(bc: BlitView, r: int, asc: bool) -> BlitView {
    BlitView {
        s_ptr: moved(bc.s_ptr, r * bc.s_span, asc) as usize,
        d_ptr: moved(bc.d_ptr, r * bc.d_span, asc) as usize,
        ..bc
    }
}

/// The cursors leave room for `h` rows of `w` bytes, one span apart, in the blit's
/// direction, and destination rows do not overlap.
pub open spec fn room_for(bc: BlitView, h: int, w: int, asc: bool) -> bool {
    h <= 0 || {
        &&& w >= 1
        &&& (h == 1 || bc.d_span >= w)
        &&& if asc {
            bc.s_ptr + (h - 1) * bc.s_span + w <= bc.s_bits.len() && bc.d_ptr + (h - 1) * bc.d_span + w
                <= bc.d_bits.len()
        } else {
            &&& bc.s_ptr < bc.s_bits.len()
            &&& bc.d_ptr < bc.d_bits.len()
            &&& (h - 1) * bc.s_span + w <= bc.s_ptr + 1
            &&& (h - 1) * bc.d_span + w <= bc.d_ptr + 1
        }
    }
}

/// Destination index `j` lies in one of the first `n` rows of a rectangle blit of
/// rows `w` bytes wide.
pub open spec fn in_rows(o: BlitView, j: int, n: int, w: int, asc: bool) -> bool {
    exists|r: int, k: int| 0 <= r < n && 0 <= k < w && j == #[trigger] moved(o.d_ptr, r * o.d_span + k, asc)
}

/// `b` is what a rectangle blit of `h` rows of `w` bytes makes of `o`: row `r` is the
/// line blit from `row_start(o, r, asc)`, the cursors end where the last row's line
/// blit left them, and nothing else in the destination changes.
pub open spec fn rect_done(o: BlitView, b: BlitView, h: int, w: int, asc: bool) -> bool {
    &&& same_setup(o, b)
    &&& h > 0 ==> b.s_ptr == cursor_after(row_start(o, h - 1, asc).s_ptr, w, asc)
        && b.d_ptr == cursor_after(row_start(o, h - 1, asc).d_ptr, w, asc)
    &&& h <= 0 ==> b.s_ptr == o.s_ptr && b.d_ptr == o.d_ptr
    &&& forall|r: int, k: int|
        0 <= r < h && 0 <= k < w ==> b.d_bits[moved(o.d_ptr, r * o.d_span + k, asc)]
            == #[trigger] line_byte(row_start(o, r, asc), k, w, asc)
    &&& forall|j: int|
        0 <= j < o.d_bits.len() && !in_rows(o, j, h, w, asc) ==> b.d_bits[j] == o.d_bits[j]
}

proof fn lemma_rows_apart(r: int, i: int, span: int, w: int, k1: int, k2: int)
    requires
        0 <= r < i,
        span >= w,
        0 <= k1 < w,
        0 <= k2 < w,
    ensures
        r * span + k1 < i * span + k2,
{
    assert((r + 1) * span <= i * span) by (nonlinear_arith)
        requires
            r + 1 <= i,
            span >= 0,
    ;
    assert((r + 1) * span == r * span + span) by (nonlinear_arith);
}

/// Runs `height` line blits of `width_in_bytes` bytes, each starting with the
/// `s_data` the context held on entry; row `r` starts `r` spans from the cursors.
pub fn perform_blit_rect(bc: &mut BlitContext, width_in_bytes: usize, height: usize, ascending_mode: bool)
    requires
        room_for(old(bc)@, height as int, width_in_bytes as int, ascending_mode),
        old(bc).s_shift <= 8,
    ensures
        rect_done(old(bc)@, final(bc)@, height as int, width_in_bytes as int, ascending_mode),
{
    let ghost o = bc@;
    let ghost w = width_in_bytes as int;
    let ghost asc = ascending_mode;
    let data_preload = bc.s_data;
    let s0 = bc.s_ptr;
    let d0 = bc.d_ptr;
    let ss = bc.s_span;
    let ds = bc.d_span;
    let s_len = bc.s_bits.len();
    let d_len = bc.d_bits.len();
    let mut i: usize = 0;
    while i < height
        invariant
            0 <= i <= height,
            o.s_bits.len() == s_len,
            o.d_bits.len() == d_len,
            room_for(o, height as int, w, asc),
            o.s_shift <= 8,
            same_setup(o, bc@),
            w == width_in_bytes as int,
            asc == ascending_mode,
            data_preload == o.s_data,
            s0 == o.s_ptr,
            d0 == o.d_ptr,
            ss == o.s_span,
            ds == o.d_span,
            i == 0 ==> bc.s_ptr == o.s_ptr && bc.d_ptr == o.d_ptr,
            i > 0 ==> bc.s_ptr == cursor_after(row_start(o, i - 1, asc).s_ptr, w, asc) && bc.d_ptr
                == cursor_after(row_start(o, i - 1, asc).d_ptr, w, asc),
            forall|r: int, k: int|
                0 <= r < i && 0 <= k < w ==> bc.d_bits@[moved(o.d_ptr, r * o.d_span + k, asc)]
                    == #[trigger] line_byte(row_start(o, r, asc), k, w, asc),
            forall|j: int|
                0 <= j < o.d_bits.len() && !in_rows(o, j, i as int, w, asc) ==> bc.d_bits@[j]
                    == o.d_bits[j],
        decreases height - i,
    {
        proof {
            assert(i * ss <= (height - 1) * ss) by (nonlinear_arith)
                requires
                    i <= height - 1,
                    ss >= 0,
            ;
            assert(i * ds <= (height - 1) * ds) by (nonlinear_arith)
                requires
                    i <= height - 1,
                    ds >= 0,
            ;
            assert(0 <= i * ss && 0 <= i * ds) by (nonlinear_arith)
                requires
                    i >= 0,
                    ss >= 0,
                    ds >= 0,
            ;
        }
        let sp = if ascending_mode { s0 + i * ss } else { s0 - i * ss };
        let dp = if ascending_mode { d0 + i * ds } else { d0 - i * ds };
        bc.s_ptr = sp;
        bc.d_ptr = dp;
        bc.s_data = data_preload;
        let ghost cur = bc@;
        let ghost row = row_start(o, i as int, asc);
        proof {
            assert forall|k: int| 0 <= k < w implies cur.d_bits[moved(cur.d_ptr, k, asc)] == o.d_bits[moved(
                cur.d_ptr,
                k,
                asc,
            )] by {
                let j = moved(cur.d_ptr, k, asc);
                assert(j == moved(o.d_ptr, i * o.d_span + k, asc));
                assert(0 <= j < o.d_bits.len());
                if in_rows(o, j, i as int, w, asc) {
                    let (r, k2) = choose|r: int, k2: int|
                        0 <= r < i && 0 <= k2 < w && j == #[trigger] moved(o.d_ptr, r * o.d_span + k2, asc);
                    lemma_rows_apart(r, i as int, o.d_span as int, w, k2, k);
                }
            }
            assert forall|k: int| 0 <= k < w implies #[trigger] line_byte(cur, k, w, asc) == line_byte(
                row,
                k,
                w,
                asc,
            ) by {
                assert(moved(cur.d_ptr, k, asc) == moved(row.d_ptr, k, asc));
            }
        }
        if ascending_mode {
            blit_line_ascending(bc, width_in_bytes);
        } else {
            blit_line_descending(bc, width_in_bytes);
        }
        proof {
            assert forall|r: int, k: int| 0 <= r < i + 1 && 0 <= k < w implies bc.d_bits@[moved(
                o.d_ptr,
                r * o.d_span + k,
                asc,
            )] == #[trigger] line_byte(row_start(o, r, asc), k, w, asc) by {
                let p = moved(o.d_ptr, r * o.d_span + k, asc);
                if r < i {
                    lemma_rows_apart(r, i as int, o.d_span as int, w, k, 0);
                    assert(0 <= r * o.d_span) by (nonlinear_arith)
                        requires
                            r >= 0,
                            o.d_span >= 0,
                    ;
                    assert(r * o.d_span <= i * o.d_span) by (nonlinear_arith)
                        requires
                            r <= i,
                            o.d_span >= 0,
                    ;
                    assert(0 <= p < o.d_bits.len());
                    assert(bc.d_bits@[p] == cur.d_bits[p]);
                } else {
                    assert(r == i);
                    assert(p == moved(cur.d_ptr, k, asc));
                    assert(bc.d_bits@[p] == line_byte(cur, k, w, asc));
                    assert(line_byte(cur, k, w, asc) == line_byte(row, k, w, asc));
                }
            }
            assert forall|j: int|
                0 <= j < o.d_bits.len() && !in_rows(o, j, i + 1, w, asc) implies bc.d_bits@[j]
                    == o.d_bits[j] by {
                if in_rows(o, j, i as int, w, asc) {
                    let (r, k) = choose|r: int, k: int|
                        0 <= r < i && 0 <= k < w && j == #[trigger] moved(o.d_ptr, r * o.d_span + k, asc);
                    assert(j == moved(o.d_ptr, r * o.d_span + k, asc));
                }
                let in_this_row = if asc {
                    cur.d_ptr <= j < cur.d_ptr + w
                } else {
                    cur.d_ptr - w < j <= cur.d_ptr
                };
                if in_this_row {
                    let k = if asc { j - cur.d_ptr } else { cur.d_ptr - j };
                    assert(j == moved(o.d_ptr, i * o.d_span + k, asc));
                }
            }
        }
        i = i + 1;
    }
}

/// Blits the source rectangle `[src_left, src_right)` × `[src_top, src_bottom)` (in
/// pixels) onto the destination at `(dst_left, dst_top)` with operation `op`.
pub fn blit_rect(
    bc: &mut BlitContext,
    src_left: usize,
    src_top: usize,
    src_right: usize,
    src_bottom: usize,
    dst_left: usize,
    dst_top: usize,
    op: BlitOp,
)
    requires
        rect_in_range(
            old(bc).s_span,
            old(bc).d_span,
            src_left,
            src_top,
            src_right,
            src_bottom,
            dst_left,
            dst_top,
        ),
        room_for(
            prepared(old(bc)@, src_left, src_top, src_right, src_bottom, dst_left, dst_top, op),
            src_bottom - src_top,
            rect_width(src_left, src_right, dst_left),
            rect_ascending(src_left, dst_left),
        ),
    ensures
        rect_done(
            prepared(old(bc)@, src_left, src_top, src_right, src_bottom, dst_left, dst_top, op),
            final(bc)@,
            src_bottom - src_top,
            rect_width(src_left, src_right, dst_left),
            rect_ascending(src_left, dst_left),
        ),
{
    let (width_in_bytes, height, ascending_mode) = prepare_blit_rect(
        bc,
        src_left,
        src_top,
        src_right,
        src_bottom,
        dst_left,
        dst_top,
        op,
    );
    perform_blit_rect(bc, width_in_bytes, height, ascending_mode);
}

} // verus!
