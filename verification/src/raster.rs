//! The pixel buffers of the rasterizer: a colour and a depth for each pixel,
//! stored row after row.
use vstd::prelude::*;

verus! {

/// A colour buffer and a depth buffer of `width * height` entries each; the
/// pixel in column `x` and row `y` is entry `y * width + x` of both.
pub struct FrameBuffers<C, D> {
    pub width: usize,
    pub height: usize,
    pub frame_buffer: Vec<C>,
    pub z_buffer: Vec<D>,
}

impl<C: Copy, D: Copy> FrameBuffers<C, D> {
    /// Both buffers hold exactly one entry per pixel.
    pub open spec fn well_formed(&self) -> bool {
        &&& self.frame_buffer@.len() == self.width * self.height
        &&& self.z_buffer@.len() == self.width * self.height
    }

    /// Whether every entry of both buffers is `color` and `depth`.
    pub open spec fn filled_with(&self, color: C, depth: D) -> bool {
        &&& forall|i: int| 0 <= i < self.frame_buffer@.len() ==> self.frame_buffer@[i] == color
        &&& forall|i: int| 0 <= i < self.z_buffer@.len() ==> self.z_buffer@[i] == depth
    }

    /// The entry of the pixel in column `x` and row `y`.
    pub open spec fn index_of(&self, x: int, y: int) -> int {
        y * self.width + x
    }

    /// Buffers of `width * height` pixels, each of colour `color` and depth
    /// `depth`.
    pub fn new(width: usize, height: usize, color: C, depth: D) -> (b: Self)
        requires
            width * height <= usize::MAX,
        ensures
            b.width == width,
            b.height == height,
            b.well_formed(),
            b.filled_with(color, depth),
    {
        let n = width * height;
        let mut frame_buffer: Vec<C> = Vec::new();
        let mut z_buffer: Vec<D> = Vec::new();
        for i in 0..n
            invariant
                frame_buffer@.len() == i,
                z_buffer@.len() == i,
                forall|j: int| 0 <= j < i ==> frame_buffer@[j] == color,
                forall|j: int| 0 <= j < i ==> z_buffer@[j] == depth,
        {
            frame_buffer.push(color);
            z_buffer.push(depth);
        }
        FrameBuffers { width, height, frame_buffer, z_buffer }
    }

    /// Gives the buffers the size `width` by `height`. At the size they have
    /// already they are left as they are; at another size they are made anew,
    /// every pixel of colour `color` and depth `depth`.
    pub fn resize(&mut self, width: usize, height: usize, color: C, depth: D)
        requires
            width * height <= usize::MAX,
        ensures
            final(self).width == width,
            final(self).height == height,
            old(self).width == width && old(self).height == height ==> *final(self) == *old(self),
            !(old(self).width == width && old(self).height == height) ==> final(self).well_formed()
                && final(self).filled_with(color, depth),
            old(self).well_formed() ==> final(self).well_formed(),
    {
        if width == self.width && height == self.height {
            return;
        }
        *self = Self::new(width, height, color, depth);
    }

    /// Sets every pixel to colour `color` and depth `depth`.
    pub fn clear(&mut self, color: C, depth: D)
        ensures
            final(self).width == old(self).width,
            final(self).height == old(self).height,
            final(self).frame_buffer@.len() == old(self).frame_buffer@.len(),
            final(self).z_buffer@.len() == old(self).z_buffer@.len(),
            final(self).filled_with(color, depth),
            old(self).well_formed() ==> final(self).well_formed(),
    {
        let n = self.frame_buffer.len();
        for i in 0..n
            invariant
                n == self.frame_buffer@.len(),
                self.width == old(self).width,
                self.height == old(self).height,
                self.z_buffer@.len() == old(self).z_buffer@.len(),
                self.frame_buffer@.len() == old(self).frame_buffer@.len(),
                forall|j: int| 0 <= j < i ==> self.frame_buffer@[j] == color,
        {
            self.frame_buffer.set(i, color);
        }
        let m = self.z_buffer.len();
        for i in 0..m
            invariant
                m == self.z_buffer@.len(),
                self.width == old(self).width,
                self.height == old(self).height,
                self.z_buffer@.len() == old(self).z_buffer@.len(),
                self.frame_buffer@.len() == old(self).frame_buffer@.len(),
                forall|j: int| 0 <= j < self.frame_buffer@.len() ==> self.frame_buffer@[j] == color,
                forall|j: int| 0 <= j < i ==> self.z_buffer@[j] == depth,
        {
            self.z_buffer.set(i, depth);
        }
    }

    /// The entry of the pixel in column `x` and row `y`, where both are in
    /// range: `x` against `width as i32` and `y` against `height as i32`, as
    /// a point is drawn.
    pub fn pixel_index(&self, x: i32, y: i32) -> (r: Option<usize>)
        requires
            self.well_formed(),
        ensures
            r == (if x < 0 || x >= self.width as i32 || y < 0 || y >= self.height as i32 {
                None
            } else {
                Some(self.index_of(x as int, y as int) as usize)
            }),
            r matches Some(i) ==> i < self.width * self.height,
    {
        if x < 0 || x >= self.width as i32 || y < 0 || y >= self.height as i32 {
            return None;
        }
        let xu = x as usize;
        let yu = y as usize;
        assert(xu < self.width && yu < self.height);
        Some(self.index(xu, yu))
    }

    /// The entry of the pixel in column `x` and row `y`.
    pub fn index(&self, x: usize, y: usize) -> (i: usize)
        requires
            self.well_formed(),
            x < self.width,
            y < self.height,
        ensures
            i == self.index_of(x as int, y as int),
            i < self.width * self.height,
    {
        assert(self.width * self.height == self.frame_buffer.len());
        proof {
            assert(y * self.width + x < self.width * self.height) by (nonlinear_arith)
                requires
                    x < self.width,
                    y < self.height,
            ;
        }
        y * self.width + x
    }

    /// The depth stored at entry `i`.
    pub fn depth(&self, i: usize) -> (d: D)
        requires
            self.well_formed(),
            i < self.width * self.height,
        ensures
            d == self.z_buffer@[i as int],
    {
        self.z_buffer[i]
    }

    /// The colour stored at entry `i`.
    pub fn color(&self, i: usize) -> (c: C)
        requires
            self.well_formed(),
            i < self.width * self.height,
        ensures
            c == self.frame_buffer@[i as int],
    {
        self.frame_buffer[i]
    }

    /// Stores colour `color` and depth `depth` at entry `i`, and nothing else.
    pub fn put(&mut self, i: usize, color: C, depth: D)
        requires
            old(self).well_formed(),
            i < old(self).width * old(self).height,
        ensures
            final(self).width == old(self).width,
            final(self).height == old(self).height,
            final(self).frame_buffer@ == old(self).frame_buffer@.update(i as int, color),
            final(self).z_buffer@ == old(self).z_buffer@.update(i as int, depth),
            final(self).well_formed(),
    {
        self.z_buffer.set(i, depth);
        self.frame_buffer.set(i, color);
    }
}

/// Distinct pixels of a `width` by `height` grid have distinct entries, so
/// that drawing one pixel never touches the colour or depth of another.
pub proof fn lemma_pixel_entries_distinct(width: nat, height: nat, x1: nat, y1: nat, x2: nat, y2: nat)
    requires
        x1 < width,
        x2 < width,
        y1 < height,
        y2 < height,
        x1 != x2 || y1 != y2,
    ensures
        y1 * width + x1 != y2 * width + x2,
        y1 * width + x1 < width * height,
{
    if y1 < y2 {
        assert(y1 * width + x1 < y2 * width + x2) by (nonlinear_arith)
            requires
                x1 < width,
                y1 < y2,
        ;
    } else if y2 < y1 {
        assert(y2 * width + x2 < y1 * width + x1) by (nonlinear_arith)
            requires
                x2 < width,
                y2 < y1,
        ;
    }
    assert(y1 * width + x1 < width * height) by (nonlinear_arith)
        requires
            x1 < width,
            y1 < height,
    ;
}

} // verus!
