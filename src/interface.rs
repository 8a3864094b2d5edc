//! The frame buffer interface: lines of bytes, each byte a column of eight
//! vertically stacked pixels.
use vstd::prelude::*;

verus! {

/// A line of `len` bytes, each equal to `value`.
pub open spec fn filled(len: nat, value: u8) -> Seq<u8> {
    Seq::new(len, |_i: int| value)
}

/// Every line of `lines` holds `width` bytes.
pub open spec fn uniform(lines: Seq<Seq<u8>>, width: nat) -> bool {
    forall|i: int| 0 <= i < lines.len() ==> #[trigger] lines[i].len() == width
}

/// Every line of `lines` replaced by a line of the same length filled with
/// `value`.
pub open spec fn all_filled(lines: Seq<Seq<u8>>, value: u8) -> Seq<Seq<u8>> {
    Seq::new(lines.len(), |i: int| filled(lines[i].len(), value))
}

/// Sets every byte of `line` to `value`.
fn fill(line: &mut [u8], value: u8)
    ensures
        final(line)@ == filled(old(line)@.len(), value),
{
    let mut i: usize = 0;
    while i < line.len()
        invariant
            i <= line@.len(),
            line@.len() == old(line)@.len(),
            forall|j: int| 0 <= j < i ==> line@[j] == value,
        decreases line@.len() - i,
    {
        line[i] = value;
        i = i + 1;
    }
    assert(line@ =~= filled(old(line)@.len(), value));
}

/// A buffer of 1-bit display pixel data.
///
/// Each buffer line represents data of 8 pixel lines on the display,
/// each byte of the line represents data of a vertical 8-pixel column.
pub trait DisplayBuffer {
    /// The lines of the buffer, from the top.
    spec fn lines(&self) -> Seq<Seq<u8>>;

    /// The number of bytes in a line.
    spec fn line_width(&self) -> nat;

    /// Display width in pixels
    fn width(&self) -> (r: usize)
        ensures
            r == self.line_width(),
    ;

    /// Display height in pixel octets
    fn line_count(&self) -> (r: usize)
        ensures
            r == self.lines().len(),
    ;

    /// Line `y` of pixel data, or `None` past the last line.
    fn get_line(&self, y: usize) -> (r: Option<&[u8]>)
        ensures
            r is Some <==> y < self.lines().len(),
            r is Some ==> r.unwrap()@ == self.lines()[y as int],
    ;

    /// Line `y` of pixel data to write in, or `None` past the last line.
    fn get_line_mut(&mut self, y: usize) -> (r: Option<&mut [u8]>)
        ensures
            final(self).line_width() == old(self).line_width(),
            r is Some <==> y < old(self).lines().len(),
            r is Some ==> r.unwrap()@ == old(self).lines()[y as int] && final(self).lines()
                == old(self).lines().update(y as int, final(r.unwrap())@),
            r is None ==> final(self).lines() == old(self).lines(),
    ;

    /// Set all bytes of display buffer with the specified value
    /// (0x00 clears all pixels, 0xff sets all pixels of the display)
    fn clear_buffer(&mut self, value: u8)
        ensures
            final(self).line_width() == old(self).line_width(),
            final(self).lines() == all_filled(old(self).lines(), value),
    {
        let count = self.line_count();
        let mut y: usize = 0;
        while y < count
            invariant
                count == old(self).lines().len(),
                y <= count,
                self.line_width() == old(self).line_width(),
                self.lines().len() == count,
                forall|j: int|
                    0 <= j < y ==> #[trigger] self.lines()[j] == filled(
                        old(self).lines()[j].len(),
                        value,
                    ),
                forall|j: int| y <= j < count ==> #[trigger] self.lines()[j] == old(self).lines()[j],
            decreases count - y,
        {
            self.clear_line(y, value);
            y = y + 1;
        }
        assert(self.lines() =~= all_filled(old(self).lines(), value));
    }

    /// Set all bytes of line `y` with the specified value; past the last
    /// line nothing changes
    fn clear_line(&mut self, y: usize, value: u8)
        ensures
            final(self).line_width() == old(self).line_width(),
            y < old(self).lines().len() ==> final(self).lines() == old(self).lines().update(
                y as int,
                filled(old(self).lines()[y as int].len(), value),
            ),
            y >= old(self).lines().len() ==> final(self).lines() == old(self).lines(),
    {
        if let Some(line) = self.get_line_mut(y) {
            fill(line, value);
        }
    }
}

} // verus!
