//! A monochrome bitmap ("stencil") with simple drawing primitives.
use vstd::prelude::*;

verus! {

/// A coordinate, in pixels.
pub type Unit = isize;

/// A point `(x, y)`, in pixels.
pub type Point = (Unit, Unit);

/// A width or height, in pixels.
pub type Dimension = isize;

/// A rectangle given by its upper-left and (exclusive) lower-right corners.
pub type Rect = (Point, Point);

/// The 8 rows of a fill pattern, repeated every 8 lines.
pub type Pattern = [u8; 8];

/// A bitmap `width` × `height` pixels, stored row after row, each row padded to whole bytes
/// with the leftmost pixel in the most significant bit.
pub struct Stencil {
    dimensions: (Dimension, Dimension),
    bits: Vec<u8>,
}

/// Bytes in a row of a bitmap `width` pixels wide.
pub open spec fn span_of(width: int) -> int {
    (width + 7) / 8
}

/// Mask of the pixels from position `i` (0 = leftmost) to the end of a byte.
pub open spec fn left_mask(i: int) -> u8 {
    (0xFFu8 >> (i as u8)) as u8
}

/// Mask of the pixels up to and including position `i` of a byte.
pub open spec fn right_mask(i: int) -> u8 {
    !((0x7Fu8 >> (i as u8)) as u8)
}

/// Byte `b` with the pixels of `mask` taken from `pattern`.
pub open spec fn painted(b: u8, mask: u8, pattern: u8) -> u8 {
    (!mask & b) | (mask & pattern)
}

impl Stencil {
    pub closed spec fn width(&self) -> int {
        self.dimensions.0 as int
    }

    pub closed spec fn height(&self) -> int {
        self.dimensions.1 as int
    }

    pub closed spec fn bytes(&self) -> Seq<u8> {
        self.bits@
    }

    /// The dimensions are non-negative and the bitmap holds one padded row per line.
    pub open spec fn wf(&self) -> bool {
        &&& self.width() >= 0
        &&& self.height() >= 0
        &&& self.bytes().len() == span_of(self.width()) * self.height()
    }

    /// A blank bitmap of the given size, or `None` when a dimension exceeds `isize::MAX`.
    pub fn new_with_dimensions(width: usize, height: usize) -> (r: Option<Self>)
        requires
            span_of(width as int) * height <= usize::MAX,
        ensures
            r is None <==> (width > isize::MAX || height > isize::MAX),
            r matches Some(s) ==> s.wf() && s.width() == width && s.height() == height
                && forall|i: int| 0 <= i < s.bytes().len() ==> s.bytes()[i] == 0,
    {
        if width > isize::MAX as usize {
            return None;
        }
        if height > isize::MAX as usize {
            return None;
        }
        let span = (width / 8) + if width % 8 != 0 { 1usize } else { 0usize };
        assert(span == span_of(width as int));
        let size = span * height;
        let mut bits: Vec<u8> = Vec::new();
        let mut i: usize = 0;
        while i < size
            invariant
                i <= size,
                bits@.len() == i,
                forall|j: int| 0 <= j < i ==> bits@[j] == 0,
            decreases size - i,
        {
            bits.push(0);
            i = i + 1;
        }
        Some(Self { dimensions: (width as Dimension, height as Dimension), bits })
    }

    /// Bytes per row.
    pub fn get_span(&self) -> (r: usize)
        requires
            self.wf(),
        ensures
            r == span_of(self.width()),
    {
        let width = self.dimensions.0 as usize;
        (width / 8) + if width % 8 != 0 { 1usize } else { 0usize }
    }

    /// Width and height in pixels.
    pub fn get_dimensions(&self) -> (r: (Dimension, Dimension))
        ensures
            r.0 == self.width(),
            r.1 == self.height(),
    {
        self.dimensions
    }

    /// The bitmap's bytes.
    pub fn borrow_bits(&self) -> (r: &[u8])
        ensures
            r@ == self.bytes(),
    {
        self.bits.as_slice()
    }
}

fn left_mask_exec(i: isize) -> (r: u8)
    requires
        0 <= i < 8,
    ensures
        r == left_mask(i as int),
{
    0xFFu8 >> (i as u8)
}

fn right_mask_exec(i: isize) -> (r: u8)
    requires
        0 <= i < 8,
    ensures
        r == right_mask(i as int),
{
    !(0x7Fu8 >> (i as u8))
}

/// Mask of the pixels of byte `x` that a run of pixels from byte `lb`, pixel `l`,
/// to byte `rb`, pixel `r` (inclusive) covers.
pub open spec fn run_mask(x: int, lb: int, rb: int, l: int, r: int) -> u8 {
    (if x == lb { left_mask(l % 8) } else { 0xFFu8 }) & (if x == rb { right_mask(r % 8) } else { 0xFFu8 })
}

/// `after` is `before` with the pixels `[l, r)` of row `top` painted with `pattern`
/// (pixel `x` takes bit `7 - x % 8` of `pattern`), and every other byte kept.
pub open spec fn row_painted(before: Seq<u8>, after: Seq<u8>, span: int, top: int, l: int, r: int, pattern: u8) -> bool {
    let lb = span * top + l / 8;
    let rb = span * top + (r - 1) / 8;
    &&& after.len() == before.len()
    &&& forall|x: int| lb <= x <= rb ==> after[x] == painted(before[x], run_mask(x, lb, rb, l, r - 1), pattern)
    &&& forall|x: int| 0 <= x < before.len() && !(lb <= x <= rb) ==> after[x] == before[x]
}

/// Byte `x` of bitmap bytes `before` (of a bitmap `w` pixels wide) after the pixels
/// `[left, right)` of rows `[top, bottom)` are filled, row `top + k` with `pattern[k % 8]`.
pub open spec fn filled_byte(
    before: Seq<u8>,
    w: int,
    x: int,
    left: int,
    top: int,
    right: int,
    bottom: int,
    pattern: Seq<u8>,
) -> u8 {
    let span = span_of(w);
    let row = x / span;
    let l = if left < 0 { 0 } else { left };
    let r = if right > w { w } else { right };
    let lb = span * row + l / 8;
    let rb = span * row + (r - 1) / 8;
    if top <= row < bottom && l < r && lb <= x <= rb {
        painted(before[x], run_mask(x, lb, rb, l, r - 1), pattern[(row - top) % 8])
    } else {
        before[x]
    }
}

/// Bitmap bytes `before` after the rectangle from `(left, top)` to `(right, bottom)`
/// (exclusive) is filled with `pattern`; an empty rectangle changes nothing.
pub open spec fn filled(
    before: Seq<u8>,
    w: int,
    left: int,
    top: int,
    right: int,
    bottom: int,
    pattern: Seq<u8>,
) -> Seq<u8> {
    if left < right && top < bottom {
        Seq::new(before.len(), |x: int| filled_byte(before, w, x, left, top, right, bottom, pattern))
    } else {
        before
    }
}

proof fn lemma_row_of(x: int, span: int, row: int)
    requires
        span > 0,
        span * row <= x < span * row + span,
    ensures
        x / span == row,
{
    vstd::arithmetic::div_mod::lemma_fundamental_div_mod(x, span);
    let q = x / span;
    if q < row {
        assert(span * q + span <= span * row) by (nonlinear_arith)
            requires
                q < row,
                span > 0,
        ;
    } else if q > row {
        assert(span * row + span <= span * q) by (nonlinear_arith)
            requires
                q > row,
                span > 0,
        ;
    }
}

impl Stencil {
    /// Paints the pixels between `left.0` and `right` (either order; the larger end
    /// excluded) of row `left.1` with `pattern`, clipped to the bitmap.
    pub fn horizontal_line(&mut self, left: Point, right: Unit, pattern: u8)
        requires
            old(self).wf(),
        ensures
            final(self).wf(),
            final(self).width() == old(self).width(),
            final(self).height() == old(self).height(),
            ({
                let top = left.1 as int;
                let lo = if left.0 > right { right as int } else { left.0 as int };
                let hi = if left.0 > right { left.0 as int } else { right as int };
                let w = old(self).width();
                if top < 0 || top >= old(self).height() || hi < 0 || lo >= w || lo == hi {
                    final(self).bytes() == old(self).bytes()
                } else {
                    row_painted(
                        old(self).bytes(),
                        final(self).bytes(),
                        span_of(w),
                        top,
                        if lo < 0 { 0 } else { lo },
                        if hi > w { w } else { hi },
                        pattern,
                    )
                }
            }),
    {
        let (mut l, top) = left;
        let mut r = right;
        let (width, height) = self.dimensions;
        if top < 0 || top >= height {
            return;
        }
        if l > r {
            let t = r;
            r = l;
            l = t;
        }
        if r < 0 || l >= width {
            return;
        }
        if l == r {
            return;
        }
        if l < 0 {
            l = 0;
        }
        if r > width {
            r = width;
        }
        if r <= l {
            return;
        }
        let last = r - 1;
        let len = self.bits.len();
        let span = self.get_span();
        let ghost s = span as int;
        let ghost h = height as int;
        assert(s * top <= s * (h - 1)) by (nonlinear_arith)
            requires
                0 <= top <= h - 1,
                s >= 0,
        ;
        assert(s * (h - 1) + s == s * h) by (nonlinear_arith);
        assert(last / 8 < s);
        assert(0 <= l < r);
        assert(last >= 0);
        assert(self.bits@.len() == s * h);
        assert(s * top + last / 8 < s * h);
        let row = span * (top as usize);
        let left_byte = row + (l / 8) as usize;
        let right_byte = row + (last / 8) as usize;
        let left_m = left_mask_exec(l % 8);
        let right_m = right_mask_exec(last % 8);
        let ghost before = self.bits@;
        let mut x = left_byte;
        while x <= right_byte
            invariant
                left_byte <= x <= right_byte + 1,
                right_byte < self.bits@.len(),
                len == self.bits@.len(),
                self.bits@.len() == before.len(),
                self.dimensions == old(self).dimensions,
                before == old(self).bits@,
                left_byte == s * top + l / 8,
                right_byte == s * top + last / 8,
                left_m == left_mask(l as int % 8),
                right_m == right_mask(last as int % 8),
                forall|y: int| left_byte <= y < x ==> self.bits@[y] == painted(
                    before[y],
                    run_mask(y, left_byte as int, right_byte as int, l as int, last as int),
                    pattern,
                ),
                forall|y: int| 0 <= y < before.len() && !(left_byte <= y < x) ==> self.bits@[y] == before[y],
            decreases right_byte + 1 - x,
        {
            let mut combined_mask: u8 = 0xFF;
            if x == left_byte {
                combined_mask = combined_mask & left_m;
            }
            if x == right_byte {
                combined_mask = combined_mask & right_m;
            }
            assert(combined_mask == run_mask(x as int, left_byte as int, right_byte as int, l as int, last as int)) by {
                assert(0xFFu8 & left_m == left_m) by (bit_vector);
                assert(0xFFu8 & right_m == right_m) by (bit_vector);
                assert(left_m & 0xFFu8 == left_m) by (bit_vector);
                assert(0xFFu8 & 0xFFu8 == 0xFFu8) by (bit_vector);
            }
            let current_byte = self.bits[x];
            let new_byte = (!combined_mask & current_byte) | (combined_mask & pattern);
            self.bits.set(x, new_byte);
            x = x + 1;
        }
    }

    /// Fills the rectangle from `upper_left` to `lower_right` (exclusive) with the
    /// 8-line `pattern`, line `y` of the rectangle using `pattern[y % 8]`; an empty
    /// rectangle changes nothing.
    pub fn filled_rectangle(&mut self, upper_left: Point, lower_right: Point, pattern: &[u8; 8])
        requires
            old(self).wf(),
            isize::MIN <= lower_right.0 - upper_left.0 <= isize::MAX,
            isize::MIN <= lower_right.1 - upper_left.1 <= isize::MAX,
        ensures
            final(self).wf(),
            final(self).width() == old(self).width(),
            final(self).height() == old(self).height(),
            (lower_right.0 <= upper_left.0 || lower_right.1 <= upper_left.1) ==> final(self).bytes()
                == old(self).bytes(),
            final(self).bytes() == filled(
                old(self).bytes(),
                old(self).width(),
                upper_left.0 as int,
                upper_left.1 as int,
                lower_right.0 as int,
                lower_right.1 as int,
                pattern@,
            ),
            (upper_left.0 < lower_right.0 && upper_left.1 < lower_right.1) ==> forall|x: int|
                0 <= x < old(self).bytes().len() ==> #[trigger] final(self).bytes()[x] == filled_byte(
                    old(self).bytes(),
                    old(self).width(),
                    x,
                    upper_left.0 as int,
                    upper_left.1 as int,
                    lower_right.0 as int,
                    lower_right.1 as int,
                    pattern@,
                ),
    {
        let (left, top) = upper_left;
        let (right, bottom) = lower_right;
        let (width, height) = (right - left, bottom - top);
        if width <= 0 || height <= 0 {
            return;
        }
        let ghost orig = self.bits@;
        let ghost w = self.width();
        let ghost span = span_of(w);
        let mut y: isize = 0;
        while y < height
            invariant
                0 <= y <= height,
                height == bottom - top,
                width == right - left,
                width > 0,
                self.wf(),
                self.width() == old(self).width(),
                self.height() == old(self).height(),
                orig == old(self).bytes(),
                w == old(self).width(),
                span == span_of(w),
                self.bytes().len() == orig.len(),
                forall|x: int|
                    0 <= x < orig.len() ==> #[trigger] self.bytes()[x] == filled_byte(
                        orig,
                        w,
                        x,
                        left as int,
                        top as int,
                        right as int,
                        top + y,
                        pattern@,
                    ),
            decreases height - y,
        {
            let row_pattern = pattern[(y % 8) as usize];
            let ghost cur = self.bytes();
            self.horizontal_line((left, top + y), right, row_pattern);
            proof {
                let row = top + y;
                let h = self.height();
                let l: int = if left < 0 { 0 } else { left as int };
                let r: int = if right > w { w } else { right as int };
                let after = self.bytes();
                assert(row_pattern == pattern@[y as int % 8]);
                let skipped = row < 0 || row >= h || right < 0 || left >= w;
                if skipped {
                    assert(after == cur);
                } else {
                    assert(row_painted(cur, after, span, row as int, l, r, row_pattern));
                }
                assert(span > 0 || orig.len() == 0) by {
                    assert(orig.len() == span * h);
                    if span <= 0 {
                        assert(span * h <= 0) by (nonlinear_arith)
                            requires
                                span <= 0,
                                h >= 0,
                        ;
                    }
                }
                assert forall|x: int| 0 <= x < orig.len() implies #[trigger] after[x]
                    == filled_byte(orig, w, x, left as int, top as int, right as int, top + y + 1, pattern@) by {
                    let xr = x / span;
                    vstd::arithmetic::div_mod::lemma_fundamental_div_mod(x, span);
                    assert(span * xr <= x < span * xr + span);
                    assert(cur[x] == filled_byte(orig, w, x, left as int, top as int, right as int, top + y, pattern@));
                    let lb = span * row + l / 8;
                    let rb = span * row + (r - 1) / 8;
                    if l < r {
                        assert(0 <= l / 8 && (r - 1) / 8 < span);
                    }
                    if xr != row {
                        if !skipped && lb <= x <= rb {
                            lemma_row_of(x, span, row as int);
                        }
                        assert(after[x] == cur[x]);
                    } else {
                        assert(0 <= row < h) by {
                            assert(xr >= 0);
                            if xr >= h {
                                assert(span * xr >= span * h) by (nonlinear_arith)
                                    requires
                                        xr >= h,
                                        span > 0,
                                ;
                            }
                        }
                        assert(cur[x] == orig[x]);
                    }
                }
            }
            y = y + 1;
        }
        proof {
            assert forall|x: int| 0 <= x < orig.len() implies #[trigger] self.bytes()[x] == filled_byte(
                orig,
                w,
                x,
                left as int,
                top as int,
                right as int,
                bottom as int,
                pattern@,
            ) by {}
            assert(self.bytes() =~= filled(
                orig,
                w,
                left as int,
                top as int,
                right as int,
                bottom as int,
                pattern@,
            ));
        }
    }
}

} // verus!
