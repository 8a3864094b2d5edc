//! The fixed-size frame buffer of the HX1230 panel.
use vstd::prelude::*;
use crate::interface::{all_filled, filled, uniform, DisplayBuffer};

verus! {

/// Display width in pixels
pub const W: usize = 96;

/// Display height in pixel octets (lines of the buffer)
pub const H: usize = 9;

/// `b` with bit `shift` set to `on` and its other bits kept.
pub open spec fn with_bit(b: u8, shift: u8, on: bool) -> u8 {
    (b & !(1u8 << shift)) | ((if on {
        1u8
    } else {
        0u8
    }) << shift)
}

/// `lines` after pixel (`x`, `y`) is set to `on`: bit `y % 8` of byte `x` of
/// line `y / 8`. A pixel outside the lines changes nothing.
pub open spec fn pixel_set(lines: Seq<Seq<u8>>, x: int, y: int, on: bool) -> Seq<Seq<u8>> {
    let line = y / 8;
    if 0 <= x && 0 <= y && line < lines.len() && x < lines[line].len() {
        lines.update(line, lines[line].update(x, with_bit(lines[line][x], (y % 8) as u8, on)))
    } else {
        lines
    }
}

/// Fixed size display frame buffer for the HX1230 display
pub struct ArrayDisplayBuffer {
    pixels: Vec<Vec<u8>>,
}

impl ArrayDisplayBuffer {
    /// The buffer holds `H` lines of `W` bytes.
    pub open spec fn wf(&self) -> bool {
        &&& self.lines().len() == H
        &&& uniform(self.lines(), W as nat)
    }

    /// Create a new, all-zero buffer for the HX1230 display
    pub fn new() -> (r: Self)
        ensures
            r.wf(),
            r.line_width() == W,
            r.lines() == Seq::new(H as nat, |_i: int| filled(W as nat, 0)),
    {
        let mut pixels: Vec<Vec<u8>> = Vec::new();
        let mut y: usize = 0;
        while y < H
            invariant
                y <= H,
                pixels@.len() == y,
                forall|j: int| 0 <= j < y ==> (#[trigger] pixels@[j])@ == filled(W as nat, 0),
            decreases H - y,
        {
            let mut line: Vec<u8> = Vec::new();
            let mut x: usize = 0;
            while x < W
                invariant
                    x <= W,
                    line@ == filled(x as nat, 0),
                decreases W - x,
            {
                line.push(0);
                x = x + 1;
                assert(line@ =~= filled(x as nat, 0));
            }
            pixels.push(line);
            y = y + 1;
        }
        let r = ArrayDisplayBuffer { pixels };
        assert(r.lines() =~= Seq::new(H as nat, |_i: int| filled(W as nat, 0)));
        r
    }

    /// Sets pixel (`x`, `y`) on or off; a pixel off the canvas is ignored.
    pub fn set_pixel(&mut self, x: i32, y: i32, on: bool)
        ensures
            final(self).line_width() == old(self).line_width(),
            final(self).lines() == pixel_set(old(self).lines(), x as int, y as int, on),
            old(self).wf() ==> final(self).wf(),
    {
        if x < 0 || y < 0 {
            return;
        }
        let column = x as usize;
        let line = (y / 8) as usize;
        let shift = (y % 8) as u8;
        if line >= self.pixels.len() || column >= self.pixels[line].len() {
            return;
        }
        let old_byte = self.pixels[line][column];
        let bit: u8 = if on {
            1
        } else {
            0
        };
        let new_byte = (old_byte & !(1u8 << shift)) | (bit << shift);
        self.pixels[line].set(column, new_byte);
        proof {
            assert(self.lines() =~= pixel_set(old(self).lines(), x as int, y as int, on));
        }
    }

    /// The canvas in pixels: width, then height.
    pub fn pixel_size(&self) -> (r: (u32, u32))
        ensures
            r.0 == W,
            r.1 == 8 * H,
    {
        (W as u32, (8 * H) as u32)
    }
}

impl DisplayBuffer for ArrayDisplayBuffer {
    closed spec fn lines(&self) -> Seq<Seq<u8>> {
        self.pixels@.map_values(|v: Vec<u8>| v@)
    }

    closed spec fn line_width(&self) -> nat {
        W as nat
    }

    fn width(&self) -> (r: usize) {
        W
    }

    fn line_count(&self) -> (r: usize) {
        self.pixels.len()
    }

    fn get_line(&self, y: usize) -> (r: Option<&[u8]>) {
        if y < self.pixels.len() {
            Some(self.pixels[y].as_slice())
        } else {
            None
        }
    }

    fn get_line_mut(&mut self, y: usize) -> (r: Option<&mut [u8]>) {
        if y < self.pixels.len() {
            let line = &mut self.pixels[y];
            let r = line.as_mut_slice();
            Some(r)
        } else {
            None
        }
    }
}

/// Filling every line with `v` leaves every line all `v`; filling line 0
/// with `w` afterwards makes line 0 all `w` and keeps the other lines.
pub proof fn lemma_clear_then_clear_line(lines: Seq<Seq<u8>>, v: u8, w: u8)
    requires
        lines.len() == H,
        uniform(lines, W as nat),
    ensures
        forall|y: int| 0 <= y < H ==> #[trigger] all_filled(lines, v)[y] == filled(W as nat, v),
        ({
            let cleared = all_filled(lines, v);
            let after = cleared.update(0, filled(cleared[0].len(), w));
            &&& after.len() == H
            &&& after[0] == filled(W as nat, w)
            &&& forall|y: int| 1 <= y < H ==> #[trigger] after[y] == cleared[y]
        }),
{
    assert(lines[0].len() == W);
}

/// A well-formed buffer has `H` lines, each `width` bytes long.
pub proof fn lemma_line_shape(b: &ArrayDisplayBuffer, y: int)
    requires
        b.wf(),
        0 <= y < b.lines().len(),
    ensures
        b.lines().len() == H,
        b.lines()[y].len() == b.line_width(),
{
}

proof fn lemma_with_bit(b: u8, s: u8, on: bool)
    requires
        s < 8,
    ensures
        forall|t: u8| t < 8 && t != s ==> (#[trigger] (with_bit(b, s, on) >> t) & 1) == (b >> t) & 1,
        (with_bit(b, s, on) >> s) & 1 == (if on {
            1u8
        } else {
            0u8
        }),
{
    assert(forall|t: u8|
        t < 8 && t != s && s < 8 ==> ((((b & !(1u8 << s)) | (1u8 << s)) >> t) & 1) == (b >> t) & 1)
        by (bit_vector);
    assert(forall|t: u8|
        t < 8 && t != s && s < 8 ==> ((((b & !(1u8 << s)) | (0u8 << s)) >> t) & 1) == (b >> t) & 1)
        by (bit_vector);
    assert(s < 8 ==> (((b & !(1u8 << s)) | (1u8 << s)) >> s) & 1 == 1u8) by (bit_vector);
    assert(s < 8 ==> (((b & !(1u8 << s)) | (0u8 << s)) >> s) & 1 == 0u8) by (bit_vector);
}

/// Setting a pixel inside the canvas changes bit `y % 8` of byte `x` of line
/// `y / 8` to the pixel's value and nothing else; outside the canvas it
/// changes nothing.
pub proof fn lemma_pixel_set(lines: Seq<Seq<u8>>, x: int, y: int, on: bool)
    requires
        lines.len() == H,
        uniform(lines, W as nat),
    ensures
        ({
            let after = pixel_set(lines, x, y, on);
            let (l, s) = (y / 8, (y % 8) as u8);
            if 0 <= x < W && 0 <= y < 8 * H {
                &&& after.len() == lines.len()
                &&& forall|i: int| 0 <= i < H && i != l ==> #[trigger] after[i] == lines[i]
                &&& after[l].len() == W
                &&& forall|j: int| 0 <= j < W && j != x ==> #[trigger] after[l][j] == lines[l][j]
                &&& forall|t: u8|
                    t < 8 && t != s ==> (#[trigger] (after[l][x] >> t) & 1) == (lines[l][x] >> t)
                        & 1
                &&& (after[l][x] >> s) & 1 == (if on {
                    1u8
                } else {
                    0u8
                })
            } else {
                after == lines
            }
        }),
{
    if 0 <= x < W && 0 <= y < 8 * H {
        assert(lines[y / 8].len() == W);
        lemma_with_bit(lines[y / 8][x], (y % 8) as u8, on);
    }
}

} // verus!
