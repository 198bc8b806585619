//! The pixel map: a grid of colours that is written pixel by pixel and read
//! out as text.
//!
//! A pixel is addressed from the lower left corner: `(0, 0)` is the first
//! pixel of the last row stored, and the text begins with the top row.

use vstd::prelude::*;
use crate::colors::{decimal, push_decimal, Color};
use crate::vectors::Tuple;

verus! {

/// The text of one row: its pixels' texts, one after the other.
pub open spec fn row_text(row: Seq<Color>) -> Seq<char>
    decreases row.len(),
{
    if row.len() == 0 {
        Seq::empty()
    } else {
        row_text(row.drop_last()) + row.last().to_str_spec()
    }
}

/// The text of the rows, with a line feed between one row and the next.
pub open spec fn rows_text(rows: Seq<Seq<Color>>) -> Seq<char>
    decreases rows.len(),
{
    if rows.len() == 0 {
        Seq::empty()
    } else if rows.len() == 1 {
        row_text(rows[0])
    } else {
        rows_text(rows.drop_last()) + seq!['\n'] + row_text(rows.last())
    }
}

/// The plain-text pixel map of a grid: the magic number, the dimensions, the
/// highest level, then the rows.
pub open spec fn ppm_spec(width: nat, height: nat, rows: Seq<Seq<Color>>) -> Seq<char> {
    seq!['P', '3', '\n'] + decimal(width) + seq![' '] + decimal(height) + seq![
        '\n',
        '2',
        '5',
        '5',
        ' ',
        '\n',
    ] + rows_text(rows) + seq!['\n']
}

/// The rows as `Canvas::write_origin` leaves them, or as they were where the
/// pixel lies outside.
pub open spec fn written(rows: Seq<Seq<Color>>, width: int, height: int, x: int, y: int, color: Color) -> Seq<
    Seq<Color>,
> {
    if 0 <= x < width && 0 <= y < height {
        rows.update(height - 1 - y, rows[height - 1 - y].update(x, color))
    } else {
        rows
    }
}

/// A write changes the pixel that it names, if the canvas has it, and no
/// other.
pub proof fn lemma_written_pixel(
    rows: Seq<Seq<Color>>,
    width: int,
    height: int,
    wx: int,
    wy: int,
    color: Color,
    x: int,
    y: int,
)
    requires
        rows.len() == height,
        forall|i: int| 0 <= i < height ==> (#[trigger] rows[i]).len() == width,
        0 <= x < width,
        0 <= y < height,
    ensures
        written(rows, width, height, wx, wy, color)[height - 1 - y][x] == if x == wx && y == wy {
            color
        } else {
            rows[height - 1 - y][x]
        },
{
    assert(rows[height - 1 - y].len() == width);
    if 0 <= wx < width && 0 <= wy < height {
        assert(rows[height - 1 - wy].len() == width);
    }
}

#[derive(Debug, Clone)]
pub struct Canvas {
    pub width: usize,
    pub height: usize,
    pub pixels: Vec<Vec<Color>>,
}

impl View for Canvas {
    type V = Seq<Seq<Color>>;

    /// The rows from the top one down.
    open spec fn view(&self) -> Seq<Seq<Color>> {
        Seq::new(self.pixels@.len(), |i: int| self.pixels@[i]@)
    }
}

impl Canvas {
    /// There are `height` rows of `width` pixels.
    pub open spec fn wf(&self) -> bool {
        &&& self@.len() == self.height
        &&& forall|i: int| 0 <= i < self.height ==> (#[trigger] self@[i]).len() == self.width
    }

    /// The pixel at `(x, y)`, counted from the lower left corner.
    pub open spec fn pixel(&self, x: int, y: int) -> Color {
        self@[self.height - 1 - y][x]
    }

    /// Whether there are `height` rows of `width` pixels: what every other
    /// method asks of the canvas.
    pub fn well_formed(&self) -> (r: bool)
        ensures
            r == self.wf(),
    {
        if self.pixels.len() != self.height {
            return false;
        }
        let mut i: usize = 0;
        while i < self.height
            invariant
                self.pixels@.len() == self.height,
                0 <= i <= self.height,
                forall|k: int| 0 <= k < i ==> (#[trigger] self@[k]).len() == self.width,
            decreases self.height - i,
        {
            if self.pixels[i].len() != self.width {
                assert(self@[i as int].len() != self.width);
                return false;
            }
            i += 1;
        }
        true
    }

    /// A canvas of the given size, black all over.
    pub fn new(width: usize, height: usize) -> (c: Canvas)
        ensures
            c.wf(),
            c.width == width,
            c.height == height,
            c@ == Seq::new(
                height as nat,
                |i: int| Seq::new(width as nat, |j: int| Color { r: 0, g: 0, b: 0 }),
            ),
    {
        let mut pixels: Vec<Vec<Color>> = Vec::new();
        let mut i: usize = 0;
        while i < height
            invariant
                0 <= i <= height,
                pixels@.len() == i,
                forall|k: int|
                    0 <= k < i ==> (#[trigger] pixels@[k])@ == Seq::new(
                        width as nat,
                        |j: int| Color { r: 0, g: 0, b: 0 },
                    ),
            decreases height - i,
        {
            let mut row: Vec<Color> = Vec::new();
            let mut j: usize = 0;
            while j < width
                invariant
                    0 <= j <= width,
                    row@.len() == j,
                    forall|k: int| 0 <= k < j ==> #[trigger] row@[k] == (Color { r: 0, g: 0, b: 0 }),
                decreases width - j,
            {
                row.push(Color::black());
                j += 1;
            }
            assert(row@ =~= Seq::new(width as nat, |j: int| Color { r: 0, g: 0, b: 0 }));
            pixels.push(row);
            i += 1;
        }
        let c = Canvas { width, height, pixels };
        assert(c@ =~= Seq::new(
            height as nat,
            |i: int| Seq::new(width as nat, |j: int| Color { r: 0, g: 0, b: 0 }),
        ));
        c
    }

    /// Gives the pixel at `(x, y)` the colour. A pixel outside the canvas is
    /// not written, and nothing else changes.
    pub fn write(&mut self, x: usize, y: usize, color: Color)
        requires
            old(self).wf(),
        ensures
            final(self).wf(),
            final(self).width == old(self).width,
            final(self).height == old(self).height,
            final(self)@ == written(
                old(self)@,
                old(self).width as int,
                old(self).height as int,
                x as int,
                y as int,
                color,
            ),
    {
        if x >= self.width || y >= self.height {
            return ;
        }
        let row: usize = self.height - y - 1;
        assert(self@[row as int].len() == self.width);
        self.pixels[row][x] = color;
        assert(self@ =~= old(self)@.update(row as int, old(self)@[row as int].update(x as int, color)));
    }

    /// Gives the pixel at `(x, y)` from the middle of the canvas the colour:
    /// the pixel `(width / 2 + x, height / 2 + y)`. A pixel outside the
    /// canvas is not written.
    pub fn write_origin(&mut self, x: isize, y: isize, color: Color)
        requires
            old(self).wf(),
        ensures
            final(self).wf(),
            final(self).width == old(self).width,
            final(self).height == old(self).height,
            final(self)@ == written(
                old(self)@,
                old(self).width as int,
                old(self).height as int,
                old(self).width / 2 + x,
                old(self).height / 2 + y,
                color,
            ),
    {
        let tx: i128 = (self.width / 2) as i128 + x as i128;
        let ty: i128 = (self.height / 2) as i128 + y as i128;
        if tx < 0 || ty < 0 || tx >= self.width as i128 || ty >= self.height as i128 {
            return ;
        }
        self.write(tx as usize, ty as usize, color);
    }

    /// Gives the pixel that the tuple falls on, seen from the middle of the
    /// canvas, the colour: `x` and `y` are rounded toward zero, `z` and `w`
    /// are not looked at.
    pub fn write_point(&mut self, p: Tuple, color: Color)
        requires
            old(self).wf(),
        ensures
            final(self).wf(),
            final(self).width == old(self).width,
            final(self).height == old(self).height,
            final(self)@ == written(
                old(self)@,
                old(self).width as int,
                old(self).height as int,
                old(self).width / 2 + p.x.to_isize_spec(),
                old(self).height / 2 + p.y.to_isize_spec(),
                color,
            ),
    {
        let x: isize = p.x.to_isize();
        let y: isize = p.y.to_isize();
        self.write_origin(x, y, color);
    }

    /// The canvas as a plain-text pixel map.
    pub fn to_ppm(&self) -> (text: String)
        requires
            self.wf(),
        ensures
            text@ == ppm_spec(self.width as nat, self.height as nat, self@),
    {
        let mut out = String::new();
        out.push('P');
        out.push('3');
        out.push('\n');
        push_decimal(&mut out, self.width);
        out.push(' ');
        push_decimal(&mut out, self.height);
        out.push('\n');
        out.push('2');
        out.push('5');
        out.push('5');
        out.push(' ');
        out.push('\n');
        let ghost header = out@;
        assert(header =~= seq!['P', '3', '\n'] + decimal(self.width as nat) + seq![' '] + decimal(
            self.height as nat,
        ) + seq!['\n', '2', '5', '5', ' ', '\n']);
        let mut i: usize = 0;
        assert(self@.take(0) =~= Seq::<Seq<Color>>::empty());
        assert(header + rows_text(self@.take(0)) =~= header);
        while i < self.height
            invariant
                self.wf(),
                0 <= i <= self.height,
                out@ == header + rows_text(self@.take(i as int)),
            decreases self.height - i,
        {
            if i > 0 {
                out.push('\n');
            }
            let ghost before = out@;
            let ghost row = self@[i as int];
            assert(row.len() == self.width);
            let mut j: usize = 0;
            assert(row.take(0) =~= Seq::<Color>::empty());
            assert(before + row_text(row.take(0)) =~= before);
            while j < self.width
                invariant
                    i < self.pixels@.len(),
                    row == self.pixels@[i as int]@,
                    row.len() == self.width,
                    0 <= j <= self.width,
                    out@ == before + row_text(row.take(j as int)),
                decreases self.width - j,
            {
                let ghost so_far = out@;
                self.pixels[i][j].push_to(&mut out);
                proof {
                    let next = row.take(j + 1);
                    assert(next.drop_last() =~= row.take(j as int));
                    assert(next.last() == row[j as int]);
                    assert(out@ =~= before + row_text(next));
                }
                j += 1;
            }
            proof {
                assert(row.take(self.width as int) =~= row);
                let next = self@.take(i + 1);
                assert(next.drop_last() =~= self@.take(i as int));
                assert(next.last() == row);
                if i == 0 {
                    assert(next.len() == 1);
                    assert(next[0] == row);
                    assert(rows_text(self@.take(0)) =~= Seq::<char>::empty());
                    assert(out@ =~= header + rows_text(next));
                } else {
                    assert(out@ =~= header + rows_text(next));
                }
            }
            i += 1;
        }
        out.push('\n');
        assert(self@.take(self.height as int) =~= self@);
        assert(out@ =~= ppm_spec(self.width as nat, self.height as nat, self@));
        out
    }
}

} // verus!
