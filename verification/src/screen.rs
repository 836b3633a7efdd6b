//! The 64x32 monochrome framebuffer and the display abstraction that the
//! execution engine draws through.

use vstd::prelude::*;
use crate::cpu_instructions::{X, Y};

verus! {

/// Width of the CHIP-8 framebuffer in pixels.
pub const SCREEN_WIDTH: usize = 64;

/// Height of the CHIP-8 framebuffer in pixels.
pub const SCREEN_HEIGHT: usize = 32;

/// Result of toggling one pixel: true iff the pixel was ON before the
/// toggle, i.e. the XOR turned it off.
pub struct IsCollision(pub bool);

/// A 64x32 grid of pixels, row-major: `state@[y][x]` is the pixel in
/// column `x` of row `y`.
pub struct ScreenState {
    rows: Vec<Vec<bool>>,
}

/// A well-formed pixel grid: 32 rows of 64 pixels each.
pub open spec fn grid_wf(g: Seq<Seq<bool>>) -> bool {
    &&& g.len() == 32
    &&& forall|y: int| 0 <= y < 32 ==> (#[trigger] g[y]).len() == 64
}

/// The grid with every pixel OFF.
pub open spec fn blank_grid() -> Seq<Seq<bool>> {
    Seq::new(32, |y: int| Seq::new(64, |x: int| false))
}

impl ScreenState {
    /// The pixel grid as a sequence of rows of booleans.
    pub closed spec fn view(&self) -> Seq<Seq<bool>> {
        self.rows@.map_values(|r: Vec<bool>| r@)
    }

    pub open spec fn wf(&self) -> bool {
        grid_wf(self@)
    }
}

/// A blank screen: all pixels OFF.
pub fn make_zero_screen_state() -> (s: ScreenState)
    ensures
        s.wf(),
        s@ == blank_grid(),
{
    let mut rows: Vec<Vec<bool>> = Vec::new();
    let mut y: usize = 0;
    while y < 32
        invariant
            y <= 32,
            rows@.len() == y,
            forall|j: int| 0 <= j < y ==> (#[trigger] rows@[j])@ == Seq::new(64, |x: int| false),
        decreases 32 - y,
    {
        let mut row: Vec<bool> = Vec::new();
        let mut x: usize = 0;
        while x < 64
            invariant
                x <= 64,
                row@.len() == x,
                forall|i: int| 0 <= i < x ==> !row@[i],
            decreases 64 - x,
        {
            row.push(false);
            x = x + 1;
        }
        proof {
            assert(row@ =~= Seq::new(64, |i: int| false));
        }
        rows.push(row);
        y = y + 1;
    }
    let s = ScreenState { rows };
    proof {
        assert(s@ =~~= blank_grid());
    }
    s
}

impl ScreenState {
    /// Read pixel `(x, y)`.
    pub fn pixel(&self, x: usize, y: usize) -> (b: bool)
        requires
            self.wf(),
            x < 64,
            y < 32,
        ensures
            b == self@[y as int][x as int],
    {
        proof {
            assert(self.rows@.len() == self@.len());
            assert(self@[y as int] == self.rows@[y as int]@);
        }
        self.rows[y][x]
    }
}

/// XOR pixel `(x, y)`: flip it and report whether it was ON before.
pub fn toggle_pixel(state: &mut ScreenState, x: X, y: Y) -> (r: IsCollision)
    requires
        old(state).wf(),
        x.0 < 64,
        y.0 < 32,
    ensures
        final(state).wf(),
        final(state)@ == old(state)@.update(
            y.0 as int,
            old(state)@[y.0 as int].update(x.0 as int, !old(state)@[y.0 as int][x.0 as int]),
        ),
        r.0 == old(state)@[y.0 as int][x.0 as int],
{
    proof {
        assert(state.rows@.len() == state@.len());
        assert(state@[y.0 as int] == state.rows@[y.0 as int]@);
    }
    let was_on = state.rows[y.0][x.0];
    let row = &mut state.rows[y.0];
    row.set(x.0, !was_on);
    proof {
        assert(state@ =~~= old(state)@.update(
            y.0 as int,
            old(state)@[y.0 as int].update(x.0 as int, !old(state)@[y.0 as int][x.0 as int]),
        ));
    }
    IsCollision(was_on)
}

/// The display the machine draws through: a pixel grid plus a "frame
/// committed" signal that the host presents to the user.
pub trait ScreenDraw: Sized {
    /// The current pixel grid.
    spec fn grid(&self) -> Seq<Seq<bool>>;

    /// Whether a frame has been committed for presentation since the host
    /// last flushed the display.
    spec fn presented(&self) -> bool;

    /// The display's own well-formedness.
    spec fn wf(&self) -> bool;

    /// A well-formed display always holds a 32-row, 64-column grid.
    proof fn wf_grid(&self)
        requires
            self.wf(),
        ensures
            grid_wf(self.grid()),
    ;

    /// XOR pixel `(x, y)`; report whether it was ON before the toggle.
    fn toggle_pixel(&mut self, x: X, y: Y) -> (r: IsCollision)
        requires
            old(self).wf(),
            x.0 < 64,
            y.0 < 32,
        ensures
            final(self).wf(),
            final(self).grid() == old(self).grid().update(
                y.0 as int,
                old(self).grid()[y.0 as int].update(
                    x.0 as int,
                    !old(self).grid()[y.0 as int][x.0 as int],
                ),
            ),
            final(self).presented() == old(self).presented(),
            r.0 == old(self).grid()[y.0 as int][x.0 as int],
    ;

    /// Set every pixel to OFF.
    fn clear(&mut self)
        requires
            old(self).wf(),
        ensures
            final(self).wf(),
            final(self).grid() == blank_grid(),
            final(self).presented() == old(self).presented(),
    ;

    /// Commit the grid for presentation; the pixels are unchanged.
    fn repaint(&mut self)
        requires
            old(self).wf(),
        ensures
            final(self).wf(),
            final(self).grid() == old(self).grid(),
            final(self).presented(),
    ;

    fn get_width(&self) -> (w: usize)
        ensures
            w == 64,
    ;

    fn get_height(&self) -> (h: usize)
        ensures
            h == 32,
    ;
}

} // verus!
