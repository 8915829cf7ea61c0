//! The brain display's pixel buffer.
//!
//! Drawing fills a row-major buffer of packed colors; pushing the
//! buffer to the screen is the platform's business. A pixel outside the
//! screen is silently ignored rather than written anywhere.

use vstd::prelude::*;

use crate::color::{rgb_word, Rgb};

verus! {

pub const SCREEN_HORIZONTAL_RESOLUTION: usize = 480;
pub const SCREEN_VERTICAL_RESOLUTION: usize = 272;
pub const SCREEN_PIXELS: usize = 480 * 272;

/// A draw target for the brain display: one packed color per pixel,
/// row-major, top-left first.
pub struct V5BrainDisplay {
    pixel_buffer: Vec<u32>,
}

/// Whether a coordinate pair lands on the screen.
pub open spec fn on_screen(x: i32, y: i32) -> bool {
    0 <= x < SCREEN_HORIZONTAL_RESOLUTION as i32 && 0 <= y < SCREEN_VERTICAL_RESOLUTION as i32
}

/// Where a coordinate pair lands in the row-major buffer.
pub open spec fn pixel_index(x: i32, y: i32) -> int {
    y * SCREEN_HORIZONTAL_RESOLUTION as int + x
}

fn set_word(v: &mut Vec<u32>, i: usize, word: u32)
    requires
        i < old(v).len(),
    ensures
        final(v)@ == old(v)@.update(i as int, word),
{
    let ghost s0 = v@;
    let _ = v.remove(i);
    v.insert(i, word);
    proof {
        assert(v@ =~= s0.update(i as int, word));
    }
}

impl V5BrainDisplay {
    /// The buffer as mathematics.
    pub closed spec fn pixels(&self) -> Seq<u32> {
        self.pixel_buffer@
    }

    pub open spec fn wf(&self) -> bool {
        self.pixels().len() == SCREEN_PIXELS as int
    }

    /// A fresh display: every pixel black.
    pub fn new() -> (d: V5BrainDisplay)
        ensures
            d.wf(),
            forall|i: int| 0 <= i < SCREEN_PIXELS as int ==> #[trigger] d.pixels()[i] == 0u32,
    {
        let mut pixel_buffer: Vec<u32> = Vec::new();
        let mut i: usize = 0;
        while i < SCREEN_PIXELS
            invariant
                i <= SCREEN_PIXELS,
                pixel_buffer@.len() == i,
                forall|k: int| 0 <= k < i ==> #[trigger] pixel_buffer@[k] == 0u32,
            decreases SCREEN_PIXELS - i,
        {
            pixel_buffer.push(0);
            i = i + 1;
        }
        V5BrainDisplay { pixel_buffer }
    }

    /// Draw one pixel: a coordinate on the screen takes the packed
    /// color; one off the screen changes nothing.
    pub fn draw_pixel(&mut self, x: i32, y: i32, color: Rgb)
        requires
            old(self).wf(),
        ensures
            final(self).wf(),
            on_screen(x, y) ==> final(self).pixels() == old(self).pixels().update(
                pixel_index(x, y),
                rgb_word(color),
            ),
            !on_screen(x, y) ==> final(self).pixels() == old(self).pixels(),
    {
        if x >= 0 && (x as usize) < SCREEN_HORIZONTAL_RESOLUTION && y >= 0 && (y as usize)
            < SCREEN_VERTICAL_RESOLUTION {
            let index = (y as usize) * SCREEN_HORIZONTAL_RESOLUTION + (x as usize);
            let word = color.to_u32();
            set_word(&mut self.pixel_buffer, index, word);
        }
    }

    /// Read one pixel back.
    pub fn pixel(&self, x: i32, y: i32) -> (word: u32)
        requires
            self.wf(),
            on_screen(x, y),
        ensures
            word == self.pixels()[pixel_index(x, y)],
    {
        self.pixel_buffer[(y as usize) * SCREEN_HORIZONTAL_RESOLUTION + (x as usize)]
    }

    /// The whole buffer, for the platform to copy to the screen.
    pub fn buffer(&self) -> (buf: &Vec<u32>)
        ensures
            buf@ == self.pixels(),
    {
        &self.pixel_buffer
    }
}

} // verus!
