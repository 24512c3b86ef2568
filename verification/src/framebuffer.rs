//! A pixel buffer of fixed width and height, one word for each pixel, rows
//! from top to bottom.

use crate::color::Color;
use vstd::prelude::*;

verus! {

/// A bare pixel buffer without dimensions.
pub struct BufferWrapper(pub Vec<u32>);

impl BufferWrapper {
    /// Sets every word to zero.
    pub fn clear_buffer(&mut self)
        ensures
            final(self).0@ == Seq::new(old(self).0@.len(), |i: int| 0u32),
    {
        let n = self.0.len();
        let mut i: usize = 0;
        while i < n
            invariant
                i <= n,
                self.0@.len() == n,
                forall|j: int| 0 <= j < i ==> self.0@[j] == 0u32,
            decreases n - i,
        {
            self.0[i] = 0;
            i += 1;
        }
    }
}

/// A simple framebuffer. The pixel in column `x` of row `y` is the word at
/// `y * width + x`.
pub struct FrameBuffer {
    pub buffer: Vec<u32>,
    pub width: usize,
    pub height: usize,
}

/// The pixels `buffer` holds after every pixel of `region` got `word`, where
/// the rows are `width` pixels long. `region` takes a column and a row.
pub open spec fn painted(
    buffer: Seq<u32>,
    width: int,
    region: spec_fn(int, int) -> bool,
    word: u32,
) -> Seq<u32> {
    Seq::new(
        buffer.len(),
        |i: int|
            if region(i % width, i / width) {
                word
            } else {
                buffer[i]
            },
    )
}

/// A pixel's position in the buffer determines its column and row.
pub proof fn lemma_pixel_index(width: int, height: int, x: int, y: int)
    requires
        0 <= x < width,
        0 <= y < height,
    ensures
        0 <= y * width,
        0 <= y * width + x < width * height,
        (y * width + x) % width == x,
        (y * width + x) / width == y,
{
    assert(y * width + x < width * height) by (nonlinear_arith)
        requires
            0 <= x < width,
            0 <= y < height,
    {
        assert((y + 1) * width <= height * width);
    }
    assert(0 <= y * width) by (nonlinear_arith)
        requires
            0 <= y,
            0 <= width,
    ;
    vstd::arithmetic::div_mod::lemma_fundamental_div_mod_converse(y * width + x, width, y, x);
}

impl FrameBuffer {
    /// The buffer holds exactly one word for each pixel.
    pub open spec fn wf(&self) -> bool {
        self.buffer@.len() == self.width * self.height
    }

    /// Whether column `x` of row `y` lies inside the frame.
    pub open spec fn in_bounds(&self, x: int, y: int) -> bool {
        0 <= x < self.width && 0 <= y < self.height
    }

    /// The word at column `x` of row `y`.
    pub open spec fn pixel(&self, x: int, y: int) -> u32
        recommends
            self.in_bounds(x, y),
    {
        self.buffer@[y * self.width + x]
    }

    /// The buffer after every pixel of `region` got `word`.
    pub open spec fn painted(&self, region: spec_fn(int, int) -> bool, word: u32) -> Seq<u32> {
        painted(self.buffer@, self.width as int, region, word)
    }

    /// Initialize a new framebuffer, every pixel zero.
    pub fn new(width: usize, height: usize) -> (fb: Self)
        requires
            width * height <= usize::MAX,
        ensures
            fb.wf(),
            fb.width == width,
            fb.height == height,
            fb.buffer@ == Seq::new((width * height) as nat, |i: int| 0u32),
    {
        FrameBuffer { buffer: vec![0u32; width * height], width, height }
    }

    /// Fill the framebuffer with color.
    pub fn fill_buffer(&mut self, color: Color)
        requires
            old(self).wf(),
        ensures
            final(self).wf(),
            final(self).width == old(self).width,
            final(self).height == old(self).height,
            final(self).buffer@ == Seq::new(old(self).buffer@.len(), |i: int| color.packed() as u32),
    {
        let word = color.into_storage();
        let n = self.buffer.len();
        let mut i: usize = 0;
        while i < n
            invariant
                i <= n,
                self.buffer@.len() == n,
                self.width == old(self).width,
                self.height == old(self).height,
                forall|j: int| 0 <= j < i ==> self.buffer@[j] == word,
            decreases n - i,
        {
            self.buffer[i] = word;
            i += 1;
        }
    }

    /// Fill the framebuffer with black.
    pub fn clear_buffer(&mut self)
        requires
            old(self).wf(),
        ensures
            final(self).wf(),
            final(self).width == old(self).width,
            final(self).height == old(self).height,
            final(self).buffer@ == Seq::new(old(self).buffer@.len(), |i: int| 0u32),
    {
        let n = self.buffer.len();
        let mut i: usize = 0;
        while i < n
            invariant
                i <= n,
                self.buffer@.len() == n,
                self.width == old(self).width,
                self.height == old(self).height,
                forall|j: int| 0 <= j < i ==> self.buffer@[j] == 0u32,
            decreases n - i,
        {
            self.buffer[i] = 0;
            i += 1;
        }
    }

    /// Draw a point if it is within bounds.
    pub fn draw_point(&mut self, p: (i32, i32), c: Color)
        requires
            old(self).wf(),
        ensures
            final(self).wf(),
            final(self).width == old(self).width,
            final(self).height == old(self).height,
            final(self).buffer@ == old(self).painted(
                |x: int, y: int| x == p.0 && y == p.1,
                c.packed() as u32,
            ),
            !old(self).in_bounds(p.0 as int, p.1 as int) ==> final(self).buffer@ == old(
                self,
            ).buffer@,
    {
        if p.0 >= 0 && p.1 >= 0 && (p.0 as usize) < self.width && (p.1 as usize) < self.height {
            self.draw_point_unchecked(p, c);
        } else {
            proof {
                let w = self.width as int;
                let target = old(self).painted(|x: int, y: int| x == p.0 && y == p.1, c.packed() as u32);
                assert forall|i: int| 0 <= i < self.buffer@.len() implies #[trigger] self.buffer@[i]
                    == target[i] by {
                    lemma_index_in_frame(w, self.height as int, i);
                }
            }
        }
    }

    /// Draw a point. Does _not_ check if the point is within bounds.
    pub fn draw_point_unchecked(&mut self, p: (i32, i32), c: Color)
        requires
            old(self).wf(),
            old(self).in_bounds(p.0 as int, p.1 as int),
        ensures
            final(self).wf(),
            final(self).width == old(self).width,
            final(self).height == old(self).height,
            final(self).buffer@ == old(self).buffer@.update(
                p.1 * old(self).width + p.0,
                c.packed() as u32,
            ),
            final(self).buffer@ == old(self).painted(
                |x: int, y: int| x == p.0 && y == p.1,
                c.packed() as u32,
            ),
    {
        let word = c.into_storage();
        let len = self.buffer.len();
        proof {
            lemma_pixel_index(self.width as int, self.height as int, p.0 as int, p.1 as int);
        }
        let row = p.1 as usize * self.width;
        let ghost w = self.width as int;
        self.buffer[row + p.0 as usize] = word;
        proof {
            let target = old(self).painted(|x: int, y: int| x == p.0 && y == p.1, word);
            assert forall|i: int| 0 <= i < self.buffer@.len() implies #[trigger] self.buffer@[i]
                == target[i] by {
                lemma_index_in_frame(w, self.height as int, i);
            }
        }
    }

    /// Draw a horizontal line between two points, on the row of the first.
    pub fn draw_horizontal_line(&mut self, p1: [i32; 2], p2: [i32; 2], color: Color)
        requires
            old(self).wf(),
        ensures
            final(self).wf(),
            final(self).width == old(self).width,
            final(self).height == old(self).height,
            final(self).buffer@ == old(self).painted(
                |x: int, y: int|
                    y == p1[1] && (p1[0] <= x <= p2[0] || p2[0] <= x <= p1[0]),
                color.packed() as u32,
            ),
    {
        let start = if p1[0] < p2[0] { p1[0] } else { p2[0] };
        let end = if p1[0] < p2[0] { p2[0] } else { p1[0] };
        let row = p1[1];
        let ghost word = color.packed() as u32;
        let mut x: i32 = start;
        let mut done = false;
        while !done
            invariant
                self.wf(),
                self.width == old(self).width,
                self.height == old(self).height,
                start <= x <= end,
                word == color.packed() as u32,
                self.buffer@ == old(self).painted(
                    |xx: int, yy: int| yy == row && start <= xx && (xx < x || (done && xx <= end)),
                    word,
                ),
                done ==> x == end,
            decreases end - x + (if done { 0int } else { 1int }),
        {
            let ghost before = self.buffer@;
            self.draw_point((x, row), color);
            proof {
                let target = old(self).painted(
                    |xx: int, yy: int| yy == row && start <= xx && xx <= x,
                    word,
                );
                assert forall|i: int| 0 <= i < before.len() implies #[trigger] self.buffer@[i]
                    == target[i] by {
                    assert(before[i] == old(self).painted(
                        |xx: int, yy: int|
                            yy == row && start <= xx && (xx < x || (done && xx <= end)),
                        word,
                    )[i]);
                }
            }
            if x == end {
                done = true;
            } else {
                x += 1;
            }
        }
    }
}

/// Painting a region gives its word to the pixels of the region that lie
/// within the frame, and leaves every other pixel of the frame as it was.
pub proof fn lemma_painted_pixel(
    fb: FrameBuffer,
    region: spec_fn(int, int) -> bool,
    word: u32,
    x: int,
    y: int,
)
    requires
        fb.wf(),
        fb.in_bounds(x, y),
    ensures
        fb.painted(region, word).len() == fb.buffer@.len(),
        fb.painted(region, word)[y * fb.width + x] == if region(x, y) {
            word
        } else {
            fb.pixel(x, y)
        },
{
    lemma_pixel_index(fb.width as int, fb.height as int, x, y);
}

/// A position in the buffer has a column and a row inside the frame.
pub proof fn lemma_index_in_frame(width: int, height: int, i: int)
    requires
        0 <= width,
        0 <= height,
        0 <= i < width * height,
    ensures
        0 <= i % width < width,
        0 <= i / width < height,
        i == (i / width) * width + i % width,
{
    assert(width > 0) by (nonlinear_arith)
        requires
            0 <= width,
            0 <= i < width * height,
    ;
    vstd::arithmetic::div_mod::lemma_fundamental_div_mod(i, width);
    vstd::arithmetic::div_mod::lemma_mod_bound(i, width);
    let q = i / width;
    assert(width * q == q * width) by (nonlinear_arith);
    assert(0 <= q < height) by (nonlinear_arith)
        requires
            width > 0,
            0 <= i < width * height,
            i == q * width + i % width,
            0 <= i % width < width,
    ;
}

} // verus!

