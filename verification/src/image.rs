use vstd::prelude::*;

verus! {

/// The shared single-channel atlas canvas: a row-major byte buffer of fixed
/// size, plus the flag that records whether any write happened since the last
/// time a caller took the image.
///
/// The flag is toggled by exactly two transitions: a blit sets it, and
/// `clear_changed` (called when the image is handed out) clears it.
pub struct AtlasImage {
    pub width: u32,
    pub height: u32,
    pub bytes: Vec<u8>,
    pub changed: bool,
}

/// Positions `(x, y)` and `(x2, y2)` denote the same cell of a `w`-wide
/// row-major grid only if they are the same position.
proof fn lemma_row_major_injective(w: int, x: int, y: int, x2: int, y2: int)
    by (nonlinear_arith)
    requires
        0 <= x < w,
        0 <= x2 < w,
        0 <= y,
        0 <= y2,
        y * w + x == y2 * w + x2,
    ensures
        x == x2,
        y == y2,
{
}

/// A cell of a `w`-wide, `h`-tall row-major grid has an index below `h * w`.
proof fn lemma_row_major_in_bounds(w: int, h: int, x: int, y: int)
    by (nonlinear_arith)
    requires
        0 <= x < w,
        0 <= y < h,
    ensures
        0 <= y * w + x < h * w,
        0 <= y * w + x < w * h,
        (y + 1) * w <= h * w,
{
}

impl AtlasImage {
    pub open spec fn wf(self) -> bool {
        self.bytes@.len() == self.width * self.height
    }

    /// The byte stored at column `x` of row `y`.
    pub open spec fn at(self, x: int, y: int) -> u8 {
        self.bytes@[y * self.width + x]
    }

    /// What the canvas holds after a `src_w` by `src_h` row-major bitmap `src`
    /// was copied in with its top left corner at `(dst_x, dst_y)`: the region
    /// holds the bitmap, every other cell keeps the byte it had in `prior`.
    pub open spec fn holds_blit(
        self,
        prior: AtlasImage,
        src: Seq<u8>,
        src_w: int,
        src_h: int,
        dst_x: int,
        dst_y: int,
    ) -> bool {
        &&& forall|px: int, py: int|
            dst_x <= px < dst_x + src_w && dst_y <= py < dst_y + src_h ==> #[trigger] self.at(
                px,
                py,
            ) == src[(py - dst_y) * src_w + (px - dst_x)]
        &&& forall|px: int, py: int|
            0 <= px < self.width && 0 <= py < self.height && !(dst_x <= px < dst_x + src_w && dst_y
                <= py < dst_y + src_h) ==> #[trigger] self.at(px, py) == prior.at(px, py)
    }

    /// A fresh canvas: every byte zero, the changed flag down.
    pub fn new(width: u32, height: u32) -> (r: AtlasImage)
        requires
            width * height <= usize::MAX,
        ensures
            r.wf(),
            r.width == width,
            r.height == height,
            r.changed == false,
            forall|i: int| 0 <= i < r.bytes@.len() ==> r.bytes@[i] == 0u8,
            forall|px: int, py: int|
                0 <= px < width && 0 <= py < height ==> #[trigger] r.at(px, py) == 0u8,
    {
        let total: usize = (width as usize) * (height as usize);
        let mut bytes: Vec<u8> = Vec::new();
        let mut i: usize = 0;
        while i < total
            invariant
                i <= total,
                bytes@.len() == i,
                forall|j: int| 0 <= j < i ==> bytes@[j] == 0u8,
            decreases total - i,
        {
            bytes.push(0u8);
            i = i + 1;
        }
        let r = AtlasImage { width, height, bytes, changed: false };
        proof {
            assert forall|px: int, py: int|
                0 <= px < width && 0 <= py < height implies #[trigger] r.at(px, py) == 0u8 by {
                lemma_row_major_in_bounds(width as int, height as int, px, py);
            }
        }
        r
    }

    /// Copy a `src_w` by `src_h` row-major bitmap into the canvas with its top
    /// left corner at `(dst_x, dst_y)`, raising the changed flag. Every cell
    /// outside the destination region keeps its byte.
    pub fn blit(&mut self, src: &Vec<u8>, src_w: usize, src_h: usize, dst_x: usize, dst_y: usize)
        requires
            old(self).wf(),
            src@.len() == src_w * src_h,
            dst_x + src_w <= old(self).width,
            dst_y + src_h <= old(self).height,
        ensures
            final(self).wf(),
            final(self).width == old(self).width,
            final(self).height == old(self).height,
            final(self).changed == true,
            final(self).holds_blit(
                *old(self),
                src@,
                src_w as int,
                src_h as int,
                dst_x as int,
                dst_y as int,
            ),
    {
        let ghost orig = *old(self);
        let src_total: usize = src.len();
        let canvas_total: usize = self.bytes.len();
        self.changed = true;
        let w: usize = self.width as usize;
        let mut y: usize = 0;
        while y < src_h
            invariant
                y <= src_h,
                self.wf(),
                self.width == orig.width,
                self.height == orig.height,
                self.changed == true,
                w == orig.width,
                src@.len() == src_w * src_h,
                src_total == src@.len(),
                canvas_total == self.bytes@.len(),
                dst_x + src_w <= orig.width,
                dst_y + src_h <= orig.height,
                forall|px: int, py: int|
                    dst_x <= px < dst_x + src_w && dst_y <= py < dst_y + y ==> #[trigger] self.at(
                        px,
                        py,
                    ) == src@[(py - dst_y) * src_w + (px - dst_x)],
                forall|px: int, py: int|
                    0 <= px < orig.width && 0 <= py < orig.height && !(dst_x <= px < dst_x + src_w
                        && dst_y <= py < dst_y + y) ==> #[trigger] self.at(px, py) == orig.at(
                        px,
                        py,
                    ),
            decreases src_h - y,
        {
            let mut x: usize = 0;
            while x < src_w
                invariant
                    y < src_h,
                    x <= src_w,
                    self.wf(),
                    self.width == orig.width,
                    self.height == orig.height,
                    self.changed == true,
                    w == orig.width,
                    src@.len() == src_w * src_h,
                    src_total == src@.len(),
                    canvas_total == self.bytes@.len(),
                    dst_x + src_w <= orig.width,
                    dst_y + src_h <= orig.height,
                    forall|px: int, py: int|
                        dst_x <= px < dst_x + src_w && dst_y <= py < dst_y + y
                            ==> #[trigger] self.at(px, py) == src@[(py - dst_y) * src_w + (px
                            - dst_x)],
                    forall|px: int, py: int|
                        py == dst_y + y && dst_x <= px < dst_x + x ==> #[trigger] self.at(px, py)
                            == src@[(py - dst_y) * src_w + (px - dst_x)],
                    forall|px: int, py: int|
                        0 <= px < orig.width && 0 <= py < orig.height && !(dst_x <= px < dst_x
                            + src_w && dst_y <= py < dst_y + y) && !(py == dst_y + y && dst_x <= px
                            < dst_x + x) ==> #[trigger] self.at(px, py) == orig.at(px, py),
                decreases src_w - x,
            {
                proof {
                    lemma_row_major_in_bounds(src_w as int, src_h as int, x as int, y as int);
                    lemma_row_major_in_bounds(
                        orig.width as int,
                        orig.height as int,
                        dst_x + x,
                        dst_y + y,
                    );
                }
                let src_idx: usize = y * src_w + x;
                let dst_idx: usize = (dst_y + y) * w + (dst_x + x);
                let v: u8 = src[src_idx];
                let ghost before = *self;
                self.bytes.set(dst_idx, v);
                proof {
                    assert(self.at(dst_x + x, dst_y + y) == src@[y * src_w + x]);
                    assert forall|px: int, py: int|
                        0 <= px < orig.width && 0 <= py < orig.height && !(px == dst_x + x && py
                            == dst_y + y) implies #[trigger] self.at(px, py) == before.at(px, py)
                    by {
                        lemma_row_major_in_bounds(orig.width as int, orig.height as int, px, py);
                        if py * orig.width + px == (dst_y + y) * orig.width + (dst_x + x) {
                            lemma_row_major_injective(
                                orig.width as int,
                                px,
                                py,
                                dst_x + x,
                                dst_y + y,
                            );
                        }
                    }
                }
                x = x + 1;
            }
            y = y + 1;
        }
    }

    /// Hand the image to the caller: clears the changed flag and leaves the
    /// bytes as they are.
    pub fn clear_changed(&mut self)
        ensures
            *final(self) == (AtlasImage { changed: false, ..*old(self) }),
    {
        self.changed = false;
    }
}

} // verus!
