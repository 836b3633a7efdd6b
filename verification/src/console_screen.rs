//! An in-memory display for console hosts: the pixel grid plus a flag that
//! records whether a frame has been committed since the host last flushed
//! it to the terminal. The host reads `state`, prints it, and resets
//! `drawn`.

use vstd::prelude::*;
use vstd::string::StringExecFns;
use crate::cpu_instructions::{X, Y};
use crate::screen::{
    IsCollision, ScreenDraw, ScreenState, SCREEN_WIDTH, SCREEN_HEIGHT, blank_grid,
    make_zero_screen_state, toggle_pixel,
};

verus! {

/// A display whose framebuffer lives in memory; presentation is the
/// host's job.
pub struct ConsoleScreen {
    pub state: ScreenState,
    pub drawn: bool,
}

impl ConsoleScreen {
    /// A blank display with no committed frame.
    pub fn new() -> (s: ConsoleScreen)
        ensures
            s.wf(),
            s.grid() == blank_grid(),
            !s.presented(),
    {
        ConsoleScreen { state: make_zero_screen_state(), drawn: false }
    }
}

/// One framebuffer row as text: `*` for a lit pixel, a space for a dark
/// one.
pub open spec fn render_row(row: Seq<bool>) -> Seq<char> {
    Seq::new(64, |x: int| if row[x] { '*' } else { ' ' })
}

/// The first `count` rows as text, rows joined by newlines.
pub open spec fn render_rows(g: Seq<Seq<bool>>, count: nat) -> Seq<char>
    decreases count,
{
    if count == 0 {
        Seq::empty()
    } else if count == 1 {
        render_row(g[0])
    } else {
        render_rows(g, (count - 1) as nat) + seq!['\n'] + render_row(g[count - 1])
    }
}

impl ConsoleScreen {
    /// The whole framebuffer as text, one line per row; what a console
    /// host prints when a frame has been committed.
    pub fn render_text(&self) -> (r: String)
        requires
            self.wf(),
        ensures
            r@ == render_rows(self.grid(), 32),
    {
        let ghost g = self.grid();
        let mut out = String::new();
        let mut y: usize = 0;
        while y < 32
            invariant
                self.wf(),
                g == self.grid(),
                y <= 32,
                out@ == render_rows(g, y as nat),
            decreases 32 - y,
        {
            proof {
                reveal_strlit("\n");
            }
            if y > 0 {
                out.append("\n");
            }
            let ghost prefix = out@;
            let mut x: usize = 0;
            while x < 64
                invariant
                    self.wf(),
                    g == self.grid(),
                    y < 32,
                    x <= 64,
                    prefix == if y == 0 { Seq::<char>::empty() } else {
                        render_rows(g, y as nat) + seq!['\n']
                    },
                    out@ == prefix + render_row(g[y as int]).take(x as int),
                decreases 64 - x,
            {
                proof {
                    reveal_strlit("*");
                    reveal_strlit(" ");
                }
                if self.state.pixel(x, y) {
                    out.append("*");
                } else {
                    out.append(" ");
                }
                proof {
                    assert(render_row(g[y as int]).take(x + 1) =~= render_row(
                        g[y as int],
                    ).take(x as int) + seq![render_row(g[y as int])[x as int]]);
                }
                x = x + 1;
            }
            proof {
                assert(render_row(g[y as int]).take(64) =~= render_row(g[y as int]));
                if y == 0 {
                    assert(out@ =~= render_rows(g, (y + 1) as nat));
                } else {
                    assert(out@ =~= render_rows(g, (y + 1) as nat));
                }
            }
            y = y + 1;
        }
        out
    }
}

impl ScreenDraw for ConsoleScreen {
    open spec fn grid(&self) -> Seq<Seq<bool>> {
        self.state@
    }

    open spec fn presented(&self) -> bool {
        self.drawn
    }

    open spec fn wf(&self) -> bool {
        self.state.wf()
    }

    proof fn wf_grid(&self) {
    }

    fn toggle_pixel(&mut self, x: X, y: Y) -> (r: IsCollision) {
        toggle_pixel(&mut self.state, x, y)
    }

    fn clear(&mut self) {
        self.state = make_zero_screen_state();
    }

    fn repaint(&mut self) {
        self.drawn = true;
    }

    fn get_width(&self) -> (w: usize) {
        SCREEN_WIDTH
    }

    fn get_height(&self) -> (h: usize) {
        SCREEN_HEIGHT
    }
}

} // verus!
