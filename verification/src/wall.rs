//! The wall: its dimensions, its plates, the opening pattern, and how it
//! is drawn as an RGB pixel buffer.
use vstd::prelude::*;
use vstd::arithmetic::div_mod::lemma_fundamental_div_mod_converse;
use crate::palette::{Rgb, palette, is_approved, approved_color};

verus! {

/// Plates across the wall.
pub const WALL_WIDTH_PLATES: u32 = 27;
/// Plates down the wall.
pub const WALL_HEIGHT_PLATES: u32 = 12;
/// Beads along each side of a plate.
pub const PLATE_SIZE: u32 = 30;
/// Beads across the whole wall.
pub const TOTAL_WIDTH: u32 = WALL_WIDTH_PLATES * PLATE_SIZE;
/// Beads down the whole wall.
pub const TOTAL_HEIGHT: u32 = WALL_HEIGHT_PLATES * PLATE_SIZE;

/// Number of plates on the wall.
pub const PLATE_COUNT: usize = 324;
/// Bytes in one plate's RGB pixel data (30 x 30 beads, 3 bytes each).
pub const TILE_BYTES: usize = 2700;
/// Bytes in one bead row of a plate.
pub const TILE_ROW_BYTES: usize = 90;
/// Bytes in one bead row of the whole wall.
pub const WALL_ROW_BYTES: usize = 2430;
/// Bytes in the RGB pixel data of the whole wall.
pub const WALL_BYTES: usize = 874800;

/// Channel `k` (0 red, 1 green, 2 blue) of a color.
pub open spec fn channel(c: Rgb, k: int) -> u8 {
    if k == 0 {
        c.0
    } else if k == 1 {
        c.1
    } else {
        c.2
    }
}

/// A plate whose 900 beads all have color `c`, as RGB bytes.
pub open spec fn solid_tile(c: Rgb) -> Seq<u8> {
    Seq::new(2700, |i: int| channel(c, i % 3))
}

/// The color a plate is filled with by `create_tile_from_color`: the first
/// three bytes given, or white when fewer than three are given.
pub open spec fn tile_color(color: Seq<u8>) -> Rgb {
    if color.len() >= 3 {
        (color[0], color[1], color[2])
    } else {
        (255u8, 255u8, 255u8)
    }
}

/// A plate of a single color, taken from the first three bytes of `color`
/// (white when there are fewer than three).
pub fn create_tile_from_color(color: &[u8]) -> (tile: Vec<u8>)
    ensures
        tile@ == solid_tile(tile_color(color@)),
{
    let (r, g, b) = if color.len() >= 3 {
        (color[0], color[1], color[2])
    } else {
        (255u8, 255u8, 255u8)
    };
    let ghost c: Rgb = (r, g, b);
    let mut tile: Vec<u8> = Vec::with_capacity(TILE_BYTES);
    let mut k: usize = 0;
    while k < 900
        invariant
            k <= 900,
            c == (r, g, b),
            tile.len() == 3 * k,
            forall|j: int| 0 <= j < tile.len() ==> #[trigger] tile@[j] == channel(c, j % 3),
        decreases 900 - k,
    {
        proof {
            lemma_fundamental_div_mod_converse(3 * k as int, 3, k as int, 0);
            lemma_fundamental_div_mod_converse(3 * k as int + 1, 3, k as int, 1);
            lemma_fundamental_div_mod_converse(3 * k as int + 2, 3, k as int, 2);
        }
        tile.push(r);
        tile.push(g);
        tile.push(b);
        k = k + 1;
    }
    proof {
        assert(tile@ =~= solid_tile(tile_color(color@)));
    }
    tile
}

/// Whether plate coordinates lie on the wall.
pub open spec fn in_grid(x: int, y: int) -> bool {
    0 <= x < 27 && 0 <= y < 12
}

/// Position of plate `(x, y)` in the row-major plate sequence.
pub open spec fn plate_index(x: int, y: int) -> int {
    y * 27 + x
}

/// The wall before any week has been applied: every plate is white.
pub open spec fn default_wall() -> Seq<Seq<u8>> {
    Seq::new(324, |p: int| solid_tile(palette(0)))
}

/// The plates of the wall, row by row.
pub struct Wall {
    tiles: Vec<Vec<u8>>,
}

impl View for Wall {
    type V = Seq<Seq<u8>>;

    closed spec fn view(&self) -> Seq<Seq<u8>> {
        self.tiles@.map_values(|t: Vec<u8>| t@)
    }
}

impl Wall {
    /// A wall has exactly one entry per plate.
    pub open spec fn well_formed(&self) -> bool {
        self@.len() == 324
    }

    /// The RGB data of plate `(x, y)`, or `None` off the wall.
    pub fn tile(&self, x: i32, y: i32) -> (t: Option<&Vec<u8>>)
        requires
            self.well_formed(),
        ensures
            t is Some <==> in_grid(x as int, y as int),
            t matches Some(v) ==> v@ == self@[plate_index(x as int, y as int)],
    {
        if 0 <= x && x < 27 && 0 <= y && y < 12 {
            let idx = (y as usize) * 27 + (x as usize);
            Some(&self.tiles[idx])
        } else {
            None
        }
    }

    /// Puts `pixels` on plate `(x, y)`; coordinates off the wall change nothing.
    pub fn place(&mut self, x: i32, y: i32, pixels: &Vec<u8>)
        requires
            old(self).well_formed(),
        ensures
            final(self).well_formed(),
            final(self)@ == if in_grid(x as int, y as int) {
                old(self)@.update(plate_index(x as int, y as int), pixels@)
            } else {
                old(self)@
            },
    {
        if 0 <= x && x < 27 && 0 <= y && y < 12 {
            let idx = (y as usize) * 27 + (x as usize);
            let copy = pixels.clone();
            proof {
                assert(copy@ =~= pixels@);
            }
            self.tiles.set(idx, copy);
            proof {
                assert(self@ =~= old(self)@.update(plate_index(x as int, y as int), pixels@));
            }
        }
    }
}

/// The opening pattern of the wall: every plate white.
pub fn get_default_tile_pattern() -> (wall: Wall)
    ensures
        wall.well_formed(),
        wall@ == default_wall(),
{
    let white = approved_color(0);
    let rgb: [u8; 3] = [white.0, white.1, white.2];
    proof {
        assert(tile_color(rgb@) == palette(0));
    }
    let mut tiles: Vec<Vec<u8>> = Vec::with_capacity(PLATE_COUNT);
    let mut p: usize = 0;
    while p < PLATE_COUNT
        invariant
            p <= 324,
            tiles.len() == p,
            tile_color(rgb@) == palette(0),
            forall|q: int| 0 <= q < p ==> (#[trigger] tiles@[q])@ == default_wall()[q],
        decreases 324 - p,
    {
        let tile = create_tile_from_color(&rgb);
        tiles.push(tile);
        p = p + 1;
    }
    let wall = Wall { tiles };
    proof {
        assert(wall@ =~= default_wall());
    }
    wall
}

/// Every plate of the opening wall is white, an approved color.
pub proof fn lemma_default_plates_are_white(p: int)
    requires
        0 <= p < 324,
    ensures
        default_wall()[p] == solid_tile((255u8, 255u8, 255u8)),
        is_approved(palette(0)),
{
    assert(is_approved(palette(0)));
}

/// Byte `i` of the wall drawn as a 810 x 360 RGB image, row by row.
///
/// With `i = y * 2430 + x * 3 + k` for bead `(x, y)` and channel `k`: the
/// bead lies on plate `(x / 30, y / 30)` at bead row `y % 30`.  A plate row
/// is drawn when the plate's data holds that whole row (90 bytes); rows the
/// plate's data does not reach stay white (255).
pub open spec fn rendered_byte(wall: Seq<Seq<u8>>, i: int) -> u8 {
    let gy = i / 2430;
    let b = i % 2430;
    let tx = b / 90;
    let m = b % 90;
    let ty = gy / 30;
    let py = gy % 30;
    let tile = wall[ty * 27 + tx];
    if py * 90 + 90 <= tile.len() {
        tile[py * 90 + m]
    } else {
        255u8
    }
}

/// The wall drawn as RGB bytes of a 810 x 360 image.
pub open spec fn rendered_wall(wall: Seq<Seq<u8>>) -> Seq<u8> {
    Seq::new(874800, |i: int| rendered_byte(wall, i))
}

impl Wall {
    /// The RGB pixel data of the wall, 810 beads wide and 360 high.
    pub fn render_pixels(&self) -> (pixels: Vec<u8>)
        requires
            self.well_formed(),
        ensures
            pixels@ == rendered_wall(self@),
    {
        let ghost w = self@;
        let mut pixels: Vec<u8> = Vec::with_capacity(WALL_BYTES);
        let mut gy: usize = 0;
        while gy < 360
            invariant
                gy <= 360,
                w == self@,
                self.tiles.len() == 324,
                pixels.len() == gy * 2430,
                forall|j: int| 0 <= j < pixels.len() ==> #[trigger] pixels@[j] == rendered_byte(w, j),
            decreases 360 - gy,
        {
            let ty: usize = gy / 30;
            let py: usize = gy % 30;
            let mut tx: usize = 0;
            while tx < 27
                invariant
                    gy < 360,
                    tx <= 27,
                    ty == gy / 30,
                    py == gy % 30,
                    w == self@,
                    self.tiles.len() == 324,
                    pixels.len() == gy * 2430 + tx * 90,
                    forall|j: int|
                        0 <= j < pixels.len() ==> #[trigger] pixels@[j] == rendered_byte(w, j),
                decreases 27 - tx,
            {
                let tile = &self.tiles[ty * 27 + tx];
                let full: bool = py * 90 + 90 <= tile.len();
                let mut m: usize = 0;
                while m < 90
                    invariant
                        gy < 360,
                        tx < 27,
                        m <= 90,
                        ty == gy / 30,
                        py == gy % 30,
                        w == self@,
                        self.tiles.len() == 324,
                        tile@ == w[ty * 27 + tx],
                        full == (py * 90 + 90 <= tile.len()),
                        pixels.len() == gy * 2430 + tx * 90 + m,
                        forall|j: int|
                            0 <= j < pixels.len() ==> #[trigger] pixels@[j] == rendered_byte(
                                w,
                                j,
                            ),
                    decreases 90 - m,
                {
                    let ghost j: int = pixels.len() as int;
                    proof {
                        lemma_fundamental_div_mod_converse(
                            j,
                            2430,
                            gy as int,
                            tx * 90 + m,
                        );
                        lemma_fundamental_div_mod_converse(
                            (tx * 90 + m) as int,
                            90,
                            tx as int,
                            m as int,
                        );
                    }
                    if full {
                        pixels.push(tile[py * 90 + m]);
                    } else {
                        pixels.push(255u8);
                    }
                    m = m + 1;
                }
                tx = tx + 1;
            }
            gy = gy + 1;
        }
        proof {
            assert(pixels@ =~= rendered_wall(w));
        }
        pixels
    }
}

/// Directory where the rendered wall is cached.
pub const CACHE_DIR: &'static str = "./cache";

/// Path of the cached image of the wall.
pub fn get_cached_wall_path() -> (path: String)
    ensures
        path@ == "./cache"@ + "/wall.png"@,
{
    let mut path = CACHE_DIR.to_owned();
    path.append("/wall.png");
    path
}

} // verus!
