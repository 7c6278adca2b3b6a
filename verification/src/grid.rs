//! The grid of colored cells being viewed: a column-major,
//! fixed-dimension 2D array, read-only for the rasterizer.

use vstd::prelude::*;
use crate::color::Color;

verus! {

/// Largest number of columns or rows a grid may have; keeps every index
/// computation comfortably inside the machine integer types.
pub const MAX_DIM: usize = 16384;

/// A `columns x rows` array of colors, addressed as `cell(column, row)`.
pub struct Grid {
    pub cells: Vec<Vec<Color>>,
}

impl Grid {
    /// The number of columns.
    pub open spec fn columns_spec(self) -> nat {
        self.cells@.len()
    }

    /// The number of rows: the length every column must share.
    pub open spec fn rows_spec(self) -> nat {
        if self.cells@.len() == 0 {
            0
        } else {
            self.cells@[0]@.len()
        }
    }

    /// Well-formed: dimensions bounded, every column the same length.
    pub open spec fn wf(self) -> bool {
        &&& self.cells@.len() <= MAX_DIM
        &&& self.rows_spec() <= MAX_DIM
        &&& forall|i: int|
            0 <= i < self.cells@.len() ==> (#[trigger] self.cells@[i]@.len()) == self.rows_spec()
    }

    /// The color stored at column `x`, row `y`.
    pub open spec fn cell(self, x: int, y: int) -> Color {
        self.cells@[x]@[y]
    }

    /// Wrap an explicit column-major matrix whose columns all share one
    /// length.
    pub fn new(cells: Vec<Vec<Color>>) -> (g: Grid)
        requires
            cells@.len() <= MAX_DIM,
            (if cells@.len() == 0 { 0int } else { cells@[0]@.len() as int }) <= MAX_DIM,
            forall|i: int|
                0 <= i < cells@.len() ==> (#[trigger] cells@[i]@.len()) == cells@[0]@.len(),
        ensures
            g.wf(),
            g.cells@ == cells@,
    {
        Grid { cells }
    }

    /// The number of columns.
    pub fn columns(&self) -> (n: usize)
        ensures
            n == self.columns_spec(),
    {
        self.cells.len()
    }

    /// The number of rows.
    pub fn rows(&self) -> (n: usize)
        ensures
            n == self.rows_spec(),
    {
        if self.cells.len() == 0 {
            0
        } else {
            self.cells[0].len()
        }
    }

    /// Read the cell at column `x`, row `y`.
    pub fn get(&self, x: usize, y: usize) -> (c: Color)
        requires
            self.wf(),
            x < self.columns_spec(),
            y < self.rows_spec(),
        ensures
            c == self.cell(x as int, y as int),
    {
        self.cells[x][y]
    }

    /// A freshly generated grid: the first column is solid red as an
    /// orientation reference, every other cell has random channels, and
    /// every cell is fully opaque.
    pub fn generate_random(columns: usize, rows: usize) -> (g: Grid)
        requires
            columns <= MAX_DIM,
            rows <= MAX_DIM,
        ensures
            g.wf(),
            g.columns_spec() == columns,
            columns > 0 ==> g.rows_spec() == rows,
            columns == 0 ==> g.rows_spec() == 0,
            forall|x: int, y: int|
                0 <= x < columns && 0 <= y < rows ==> (#[trigger] g.cell(x, y)).a == 255,
            forall|y: int|
                0 < columns && 0 <= y < rows ==> g.cell(0, y) == (Color {
                    r: 255,
                    g: 0,
                    b: 0,
                    a: 255,
                }),
    {
        let mut cells: Vec<Vec<Color>> = Vec::new();
        let mut x: usize = 0;
        while x < columns
            invariant
                x <= columns,
                cells@.len() == x,
                forall|i: int| 0 <= i < x ==> (#[trigger] cells@[i]@.len()) == rows,
                forall|i: int, j: int|
                    0 <= i < x && 0 <= j < rows ==> (#[trigger] cells@[i]@[j]).a == 255,
                forall|j: int|
                    x > 0 && 0 <= j < rows ==> cells@[0]@[j] == (Color {
                        r: 255,
                        g: 0,
                        b: 0,
                        a: 255,
                    }),
            decreases columns - x,
        {
            let mut col: Vec<Color> = Vec::new();
            let mut y: usize = 0;
            while y < rows
                invariant
                    y <= rows,
                    col@.len() == y,
                    forall|j: int| 0 <= j < y ==> (#[trigger] col@[j]).a == 255,
                    forall|j: int|
                        x == 0 && 0 <= j < y ==> col@[j] == (Color {
                            r: 255,
                            g: 0,
                            b: 0,
                            a: 255,
                        }),
                decreases rows - y,
            {
                if x == 0 {
                    col.push(Color { r: 255, g: 0, b: 0, a: 255 });
                } else {
                    col.push(Color { r: random_byte(), g: random_byte(), b: random_byte(), a: 255 });
                }
                y = y + 1;
            }
            cells.push(col);
            x = x + 1;
        }
        Grid { cells }
    }
}

/// Relies on `rand::random::<u8>`: draws one byte from the thread's
/// generator. Nothing is promised of the value.
#[verifier::external_body]
fn random_byte() -> u8 {
    rand::random::<u8>()
}

} // verus!
