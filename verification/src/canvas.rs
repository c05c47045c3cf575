use crate::scalar::{Scalar, ZERO_BITS};
use crate::vector::{black, Color3};
use std::collections::HashMap;
use vstd::prelude::*;

verus! {

broadcast use vstd::std_specs::hash::group_hash_axioms;

/// The key under which the cell in column `x` of row `y` is stored. Distinct
/// cells have distinct keys: the column fills the upper half, the row the lower.
pub open spec fn cell(x: u32, y: u32) -> u64 {
    (x as u64 * 4294967296 + y as u64) as u64
}

/// A grid of pixels that starts out black and is painted cell by cell.
pub struct Canvas {
    width: u32,
    height: u32,
    pixels: HashMap<u64, Color3>,
    default: Color3,
}

impl Canvas {
    /// Number of columns.
    pub closed spec fn spec_width(&self) -> u32 {
        self.width
    }

    /// Number of rows.
    pub closed spec fn spec_height(&self) -> u32 {
        self.height
    }

    /// The colour of every cell that was never painted.
    pub closed spec fn background(&self) -> Color3 {
        self.default
    }

    /// The cells painted so far, each with its colour.
    pub closed spec fn painted(&self) -> Map<(u32, u32), Color3> {
        Map::new(
            |c: (u32, u32)| self.pixels@.contains_key(cell(c.0, c.1)),
            |c: (u32, u32)| self.pixels@[cell(c.0, c.1)],
        )
    }

    /// The colour that the canvas shows at `(x, y)`.
    pub open spec fn pixel(&self, x: u32, y: u32) -> Color3 {
        if self.painted().contains_key((x, y)) {
            self.painted()[(x, y)]
        } else {
            self.background()
        }
    }

    /// An unpainted canvas of the given size: black all over.
    pub fn new(width: u32, height: u32) -> (canvas: Self)
        ensures
            canvas.width() == width,
            canvas.height() == height,
            canvas.background() == black(),
            canvas.painted() =~= Map::<(u32, u32), Color3>::empty(),
    {
        let zero = Scalar { bits: ZERO_BITS };
        Canvas {
            width,
            height,
            pixels: HashMap::new(),
            default: Color3 { x: zero, y: zero, z: zero },
        }
    }

    /// Number of columns.
    #[verifier::when_used_as_spec(spec_width)]
    pub fn width(&self) -> (w: u32)
        ensures
            w == self.spec_width(),
    {
        self.width
    }

    /// Number of rows.
    #[verifier::when_used_as_spec(spec_height)]
    pub fn height(&self) -> (h: u32)
        ensures
            h == self.spec_height(),
    {
        self.height
    }

    /// The colour at `(x, y)`: what was last painted there, or the background.
    /// Cells outside the grid are stored and returned like any other.
    pub fn get_pixel(&self, x: u32, y: u32) -> (color: &Color3)
        ensures
            *color == self.pixel(x, y),
    {
        let key: u64 = x as u64 * 4294967296 + y as u64;
        match self.pixels.get(&key) {
            Some(c) => c,
            None => &self.default,
        }
    }

    /// The colours of row `y` from the left, `n` of them.
    pub open spec fn row(&self, y: u32, n: nat) -> Seq<Color3>
        decreases n,
    {
        if n == 0 || n > u32::MAX {
            Seq::<Color3>::empty()
        } else {
            self.row(y, (n - 1) as nat).push(self.pixel((n - 1) as u32, y))
        }
    }

    /// The colours of the first `m` rows, row after row from the top, each
    /// row in its full width from the left.
    pub open spec fn raster(&self, m: nat) -> Seq<Color3>
        decreases m,
    {
        if m == 0 || m > u32::MAX {
            Seq::<Color3>::empty()
        } else {
            self.raster((m - 1) as nat) + self.row((m - 1) as u32, self.width() as nat)
        }
    }

    /// Paints `(x, y)` and leaves every other cell, the size and the
    /// background as they were.
    pub fn put_pixel(&mut self, x: u32, y: u32, color: Color3)
        ensures
            final(self).painted() =~= old(self).painted().insert((x, y), color),
            final(self).background() == old(self).background(),
            final(self).width() == old(self).width(),
            final(self).height() == old(self).height(),
    {
        let key: u64 = x as u64 * 4294967296 + y as u64;
        proof {
            lemma_cell_injective();
        }
        self.pixels.insert(key, color);
    }
}

impl Canvas {
    /// All the colours of the grid in reading order: row after row from the
    /// top, each row from the left.
    pub fn scanlines(&self) -> (colors: Vec<Color3>)
        ensures
            colors@ == self.raster(self.height() as nat),
    {
        let mut colors: Vec<Color3> = Vec::new();
        let mut y: u32 = 0;
        while y < self.height
            invariant
                y <= self.height,
                colors@ == self.raster(y as nat),
            decreases self.height - y,
        {
            let ghost above = colors@;
            let mut x: u32 = 0;
            while x < self.width
                invariant
                    x <= self.width,
                    y < self.height,
                    colors@ == above + self.row(y, x as nat),
                decreases self.width - x,
            {
                let color = *self.get_pixel(x, y);
                colors.push(color);
                assert(colors@ =~= above + self.row(y, (x + 1) as nat));
                x += 1;
            }
            y += 1;
        }
        colors
    }
}

/// A cell that was never painted shows the background.
pub proof fn lemma_unpainted_shows_background(canvas: Canvas, x: u32, y: u32)
    requires
        !canvas.painted().contains_key((x, y)),
    ensures
        canvas.pixel(x, y) == canvas.background(),
{
}

/// After a cell was painted it shows the colour it was painted with, and
/// every other cell shows what it showed before.
pub proof fn lemma_paint_then_look(before: Canvas, after: Canvas, x: u32, y: u32, color: Color3)
    requires
        after.painted() == before.painted().insert((x, y), color),
        after.background() == before.background(),
    ensures
        after.pixel(x, y) == color,
        forall|a: u32, b: u32| (a, b) != (x, y) ==> after.pixel(a, b) == before.pixel(a, b),
{
}

/// Two cells share a key only if they are the same cell.
pub proof fn lemma_cell_injective()
    ensures
        forall|a: u32, b: u32, c: u32, d: u32| #[trigger]
            cell(a, b) == #[trigger] cell(c, d) ==> a == c && b == d,
{
}

} // verus!
