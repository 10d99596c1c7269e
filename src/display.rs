use vstd::prelude::*;

verus! {

pub const SCREEN_WIDTH: usize = 64;

pub const SCREEN_HEIGHT: usize = 32;

/// Number of pixels on the screen (`SCREEN_WIDTH * SCREEN_HEIGHT`).
pub const SCREEN_SIZE: usize = 2048;

/// What a display buffer holds: the pixels, row by row, and whether they
/// changed since the renderer last consumed them.
pub struct Frame {
    pub pixels: Seq<bool>,
    pub dirty: bool,
}

/// The cell that screen position `(x, y)` lands on once both coordinates
/// wrap around the screen's dimensions.
pub open spec fn pixel_index(x: int, y: int) -> int {
    x % (SCREEN_WIDTH as int) + (SCREEN_WIDTH as int) * (y % (SCREEN_HEIGHT as int))
}

/// The display buffer: a grid of on/off pixels with XOR writes and a dirty flag.
pub struct Video {
    draw: bool,
    screen: [bool; SCREEN_SIZE],
}

impl View for Video {
    type V = Frame;

    closed spec fn view(&self) -> Frame {
        Frame { pixels: self.screen@, dirty: self.draw }
    }
}

/// Every display buffer has exactly `SCREEN_SIZE` pixels.
pub broadcast proof fn lemma_video_size(v: Video)
    ensures
        #[trigger] v@.pixels.len() == SCREEN_SIZE,
{
}

impl Video {
    /// A blank screen that has nothing to render.
    pub fn new() -> (r: Self)
        ensures
            r@.pixels == Seq::new(SCREEN_SIZE as nat, |i: int| false),
            !r@.dirty,
    {
        let r = Video { draw: false, screen: [false; SCREEN_SIZE] };
        assert(r@.pixels =~= Seq::new(SCREEN_SIZE as nat, |i: int| false));
        r
    }

    fn calculate_index(x: usize, y: usize) -> (r: usize)
        ensures
            r == pixel_index(x as int, y as int),
            r < SCREEN_SIZE,
    {
        let x = x % SCREEN_WIDTH;
        let y = y % SCREEN_HEIGHT;
        x + SCREEN_WIDTH * y
    }

    /// The `(x, y)` position of the cell at `index`, row-major.
    pub fn calculate_coordinates(index: usize) -> (r: (usize, usize))
        ensures
            r.0 == index % SCREEN_WIDTH,
            r.1 == index / SCREEN_WIDTH,
    {
        let y = index / SCREEN_WIDTH;
        let x = index % SCREEN_WIDTH;
        (x, y)
    }

    /// Turns every pixel off and marks the frame for rendering.
    pub fn clear_screen(&mut self)
        ensures
            final(self)@.pixels == Seq::new(SCREEN_SIZE as nat, |i: int| false),
            final(self)@.dirty,
    {
        self.screen = [false; SCREEN_SIZE];
        self.draw = true;
        assert(self@.pixels =~= Seq::new(SCREEN_SIZE as nat, |i: int| false));
    }

    /// The pixel at `(x, y)`, coordinates wrapping around the screen.
    pub fn get_screen_pixel_state(&self, x: usize, y: usize) -> (r: bool)
        ensures
            r == self@.pixels[pixel_index(x as int, y as int)],
    {
        self.screen[Video::calculate_index(x, y)]
    }

    /// XORs `state` into the pixel at `(x, y)`, coordinates wrapping around
    /// the screen: `true` toggles it, `false` leaves it.
    pub fn set_screen_pixel_state(&mut self, x: usize, y: usize, state: bool)
        ensures
            final(self)@.pixels == old(self)@.pixels.update(
                pixel_index(x as int, y as int),
                old(self)@.pixels[pixel_index(x as int, y as int)] != state,
            ),
            final(self)@.dirty == old(self)@.dirty,
    {
        let i = Video::calculate_index(x, y);
        self.screen[i] = self.screen[i] ^ state;
    }

    pub fn is_drawflag_set(&self) -> (r: bool)
        ensures
            r == self@.dirty,
    {
        self.draw
    }

    pub fn set_drawflag(&mut self, state: bool)
        ensures
            final(self)@.pixels == old(self)@.pixels,
            final(self)@.dirty == state,
    {
        self.draw = state;
    }
}

} // verus!
