//! Pixel plotting into brightness and RGBA buffers.
use vstd::prelude::*;

verus! {

/// Whether the pixel `(x, y)` lies inside a `width` by `height` grid.
pub open spec fn on_grid(x: int, y: int, width: int, height: int) -> bool {
    0 <= x < width && 0 <= y < height
}

/// Row-major position of pixel `(x, y)` in a buffer that is `width` pixels wide.
pub open spec fn grid_index(x: int, y: int, width: int) -> int {
    y * width + x
}

/// The brightness buffer after adding `amount` to pixel `(x, y)`; a pixel off the grid
/// leaves the buffer as it is.
pub open spec fn plotted(data: Seq<u32>, width: int, height: int, x: int, y: int, amount: u32) -> Seq<u32> {
    if on_grid(x, y, width, height) {
        let i = grid_index(x, y, width);
        data.update(i, (data[i] + amount) as u32)
    } else {
        data
    }
}

/// What a plot of `(x, y)` needs of the buffer: room for the pixel and no overflow of
/// its brightness.
pub open spec fn can_plot(data: Seq<u32>, width: int, height: int, x: int, y: int, amount: u32) -> bool {
    on_grid(x, y, width, height) ==> {
        &&& grid_index(x, y, width) < data.len()
        &&& data[grid_index(x, y, width)] + amount <= u32::MAX
    }
}

/// Adds `amount` to the cell `(x, y)` of a row-major brightness buffer `width` cells wide;
/// a cell off the `width` by `height` grid is skipped.
pub fn plot_cell(data: &mut [u32], width: usize, height: usize, x: usize, y: usize, amount: u32)
    requires
        can_plot(old(data)@, width as int, height as int, x as int, y as int, amount),
    ensures
        final(data)@ == plotted(old(data)@, width as int, height as int, x as int, y as int, amount),
{
    if x < width && y < height {
        let len = data.len();
        assert(grid_index(x as int, y as int, width as int) < len);
        let index = y * width + x;
        data[index] = data[index] + amount;
    }
}

/// Adds `amount` to pixel `(x, y)` of a row-major brightness buffer; a pixel with a
/// negative coordinate or one past the `width` by `height` grid is skipped.
pub fn plot_brightness(data: &mut [u32], width: usize, height: usize, x: i16, y: i16, amount: u32)
    requires
        can_plot(old(data)@, width as int, height as int, x as int, y as int, amount),
    ensures
        final(data)@ == plotted(old(data)@, width as int, height as int, x as int, y as int, amount),
{
    if x >= 0 && y >= 0 {
        plot_cell(data, width, height, x as usize, y as usize, amount);
    }
}

/// One pixel of an anti-aliased line: its position and how much of it the line covers,
/// from 0 (none) to 255 (all of it).
#[derive(Clone, Copy, Debug, PartialEq, Eq)]
pub struct WuPixel {
    pub x: i16,
    pub y: i16,
    pub coverage: u8,
}

/// Whether `draw` paints the pixel `(x, y)`: both coordinates are non-negative and below
/// `width` and `height` taken as `i16`, as the drawing loop compares them.
pub open spec fn in_window(x: i16, y: i16, width: usize, height: usize) -> bool {
    &&& x >= 0
    &&& y >= 0
    &&& x < (width as i16)
    &&& y < (height as i16)
}

/// First byte of the RGBA quadruple of pixel `(x, y)` in a buffer `width` pixels wide.
pub open spec fn rgba_index(x: i16, y: i16, width: usize) -> int {
    (y * width + x) * 4
}

/// Whether the buffer has room for every pixel of `pixels` that `draw` paints.
pub open spec fn fits(len: nat, pixels: Seq<WuPixel>, width: usize, height: usize) -> bool {
    forall|k: int|
        0 <= k < pixels.len() && #[trigger] in_window(pixels[k].x, pixels[k].y, width, height)
            ==> rgba_index(pixels[k].x, pixels[k].y, width) + 4 <= len
}

/// The buffer after painting one pixel with colour `(r, g, b)` and its coverage as alpha.
pub open spec fn painted(data: Seq<u8>, p: WuPixel, width: usize, height: usize, r: u8, g: u8, b: u8) -> Seq<u8> {
    if in_window(p.x, p.y, width, height) {
        let i = rgba_index(p.x, p.y, width);
        data.update(i, r).update(i + 1, g).update(i + 2, b).update(i + 3, p.coverage)
    } else {
        data
    }
}

/// The buffer after painting `pixels` in order, later pixels over earlier ones.
pub open spec fn painted_all(data: Seq<u8>, pixels: Seq<WuPixel>, width: usize, height: usize, r: u8, g: u8, b: u8) -> Seq<u8>
    decreases pixels.len(),
{
    if pixels.len() == 0 {
        data
    } else {
        painted(painted_all(data, pixels.drop_last(), width, height, r, g, b), pixels.last(), width, height, r, g, b)
    }
}

/// Whether byte `i` of the buffer belongs to a pixel of `pixels` that `draw` paints.
pub open spec fn painted_byte(i: int, pixels: Seq<WuPixel>, width: usize, height: usize) -> bool {
    exists|k: int|
        0 <= k < pixels.len() && #[trigger] in_window(pixels[k].x, pixels[k].y, width, height)
            && rgba_index(pixels[k].x, pixels[k].y, width) <= i < rgba_index(pixels[k].x, pixels[k].y, width) + 4
}

/// Painting a line changes no byte outside the pixels it paints, and keeps the buffer's
/// length.
pub proof fn lemma_paint_keeps_other_bytes(data: Seq<u8>, pixels: Seq<WuPixel>, width: usize, height: usize, r: u8, g: u8, b: u8)
    requires
        fits(data.len(), pixels, width, height),
    ensures
        painted_all(data, pixels, width, height, r, g, b).len() == data.len(),
        forall|i: int| 0 <= i < data.len() && !painted_byte(i, pixels, width, height)
            ==> #[trigger] painted_all(data, pixels, width, height, r, g, b)[i] == data[i],
    decreases pixels.len(),
{
    if pixels.len() > 0 {
        let rest = pixels.drop_last();
        assert(fits(data.len(), rest, width, height)) by {
            assert forall|k: int| 0 <= k < rest.len() && #[trigger] in_window(rest[k].x, rest[k].y, width, height)
                implies rgba_index(rest[k].x, rest[k].y, width) + 4 <= data.len() by {
                assert(rest[k] == pixels[k]);
            }
        }
        lemma_paint_keeps_other_bytes(data, rest, width, height, r, g, b);
        let before = painted_all(data, rest, width, height, r, g, b);
        let last = pixels.last();
        assert forall|i: int| 0 <= i < data.len() && !painted_byte(i, pixels, width, height)
            implies #[trigger] painted_all(data, pixels, width, height, r, g, b)[i] == data[i] by {
            if painted_byte(i, rest, width, height) {
                let k = choose|k: int|
                    0 <= k < rest.len() && #[trigger] in_window(rest[k].x, rest[k].y, width, height)
                        && rgba_index(rest[k].x, rest[k].y, width) <= i < rgba_index(rest[k].x, rest[k].y, width) + 4;
                assert(pixels[k] == rest[k]);
                assert(in_window(pixels[k].x, pixels[k].y, width, height));
            }
            if in_window(last.x, last.y, width, height) {
                let j = pixels.len() - 1;
                assert(pixels[j] == last);
                assert(in_window(pixels[j].x, pixels[j].y, width, height));
            }
        }
    }
}

/// Painting one pixel inside the window writes its colour and coverage over its four bytes,
/// whatever they held before.
pub proof fn lemma_painted_pixel_bytes(data: Seq<u8>, p: WuPixel, width: usize, height: usize, r: u8, g: u8, b: u8)
    requires
        in_window(p.x, p.y, width, height),
        rgba_index(p.x, p.y, width) + 4 <= data.len(),
    ensures
        ({
            let out = painted(data, p, width, height, r, g, b);
            let i = rgba_index(p.x, p.y, width);
            &&& out.len() == data.len()
            &&& out[i] == r
            &&& out[i + 1] == g
            &&& out[i + 2] == b
            &&& out[i + 3] == p.coverage
        }),
{
}

/// After drawing, a pixel of the line inside the window that no later pixel of the line
/// shares a position with shows the line's colour and its own coverage, whatever the buffer
/// held before: the last pixel at each position decides it.
pub proof fn lemma_last_pixel_at_position_shows(data: Seq<u8>, pixels: Seq<WuPixel>, width: usize, height: usize, r: u8, g: u8, b: u8, k: int)
    requires
        fits(data.len(), pixels, width, height),
        0 <= k < pixels.len(),
        in_window(pixels[k].x, pixels[k].y, width, height),
        forall|j: int| k < j < pixels.len() && in_window(pixels[j].x, pixels[j].y, width, height)
            ==> rgba_index(#[trigger] pixels[j].x, pixels[j].y, width) != rgba_index(pixels[k].x, pixels[k].y, width),
    ensures
        ({
            let out = painted_all(data, pixels, width, height, r, g, b);
            let i = rgba_index(pixels[k].x, pixels[k].y, width);
            &&& out[i] == r
            &&& out[i + 1] == g
            &&& out[i + 2] == b
            &&& out[i + 3] == pixels[k].coverage
        }),
    decreases pixels.len(),
{
    let rest = pixels.drop_last();
    let i = rgba_index(pixels[k].x, pixels[k].y, width);
    lemma_paint_keeps_other_bytes(data, pixels, width, height, r, g, b);
    assert(fits(data.len(), rest, width, height)) by {
        assert forall|q: int| 0 <= q < rest.len() && #[trigger] in_window(rest[q].x, rest[q].y, width, height)
            implies rgba_index(rest[q].x, rest[q].y, width) + 4 <= data.len() by {
            assert(rest[q] == pixels[q]);
        }
    }
    lemma_paint_keeps_other_bytes(data, rest, width, height, r, g, b);
    let before = painted_all(data, rest, width, height, r, g, b);
    let last = pixels.last();
    assert(last == pixels[pixels.len() - 1]);
    assert(in_window(pixels[k].x, pixels[k].y, width, height));
    assert(i + 4 <= data.len());
    if k == pixels.len() - 1 {
        lemma_painted_pixel_bytes(before, last, width, height, r, g, b);
    } else {
        assert(rest[k] == pixels[k]);
        assert forall|j: int| k < j < rest.len() && in_window(rest[j].x, rest[j].y, width, height)
            implies rgba_index(#[trigger] rest[j].x, rest[j].y, width) != rgba_index(rest[k].x, rest[k].y, width) by {
            assert(rest[j] == pixels[j]);
        }
        lemma_last_pixel_at_position_shows(data, rest, width, height, r, g, b, k);
        if in_window(last.x, last.y, width, height) {
            let li = rgba_index(last.x, last.y, width);
            assert(li != i);
            assert(pixels[k].y * (width as int) + pixels[k].x != last.y * (width as int) + last.x);
            assert(li + 4 <= i || i + 4 <= li);
        }
    }
}

/// The pixels of an anti-aliased line (Xiaolin Wu's algorithm), from left to right, with
/// how far along they have been consumed.
pub struct XiaolinWu {
    pixels: Vec<WuPixel>,
    next: usize,
}

impl XiaolinWu {
    /// The pixels still to come.
    pub closed spec fn remaining(&self) -> Seq<WuPixel> {
        self.pixels@.subrange(self.next as int, self.pixels@.len() as int)
    }

    pub closed spec fn wf(&self) -> bool {
        self.next <= self.pixels@.len()
    }

    /// A line whose pixels, in order, are `pixels`.
    pub fn from_pixels(pixels: Vec<WuPixel>) -> (line: XiaolinWu)
        ensures
            line.wf(),
            line.remaining() == pixels@,
    {
        XiaolinWu { pixels, next: 0 }
    }

    /// The next pixel of the line, or `None` once all have been handed out.
    pub fn next_pixel(&mut self) -> (p: Option<WuPixel>)
        requires
            old(self).wf(),
        ensures
            final(self).wf(),
            old(self).remaining().len() == 0 ==> p is None && final(self).remaining() == old(self).remaining(),
            old(self).remaining().len() > 0 ==> p == Some(old(self).remaining()[0])
                && final(self).remaining() == old(self).remaining().drop_first(),
    {
        if self.next < self.pixels.len() {
            let p = self.pixels[self.next];
            self.next = self.next + 1;
            Some(p)
        } else {
            None
        }
    }

    /// Paints the remaining pixels of the line into an RGBA buffer `width` pixels wide:
    /// each pixel inside the grid gets colour `(r, g, b)` and its coverage as alpha, and
    /// the line is used up.
    pub fn draw(&mut self, data: &mut [u8], width: usize, height: usize, r: u8, g: u8, b: u8)
        requires
            old(self).wf(),
            fits(old(data)@.len(), old(self).remaining(), width, height),
        ensures
            final(self).wf(),
            final(self).remaining().len() == 0,
            final(data)@ == painted_all(old(data)@, old(self).remaining(), width, height, r, g, b),
    {
        let ghost todo = self.remaining();
        let ghost start = self.next as int;
        let ghost initial = data@;
        let len = data.len();
        while self.next < self.pixels.len()
            invariant
                self.wf(),
                0 <= start <= self.next,
                self.pixels@.subrange(start, self.pixels@.len() as int) == todo,
                len == data@.len(),
                initial.len() == len,
                fits(len as nat, todo, width, height),
                data@ == painted_all(initial, todo.take(self.next - start), width, height, r, g, b),
            decreases self.pixels@.len() - self.next,
        {
            let k = self.next;
            let p = self.pixels[k];
            assert(p == todo[k - start]);
            assert(todo.take(k + 1 - start).drop_last() =~= todo.take(k - start));
            if p.x >= 0 && p.y >= 0 && p.x < (width as i16) && p.y < (height as i16) {
                assert(in_window(todo[k - start].x, todo[k - start].y, width, height));
                let index = ((p.y as usize) * width + p.x as usize) * 4;
                data[index] = r;
                data[index + 1] = g;
                data[index + 2] = b;
                data[index + 3] = p.coverage;
            }
            self.next = k + 1;
        }
        assert(todo.take(self.next - start) =~= todo);
    }
}

} // verus!
