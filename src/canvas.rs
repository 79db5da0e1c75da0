use vstd::prelude::*;

verus! {

/// Flat position of cell `(x, y)` in a row-major store of the given width.
pub open spec fn flat_index(width: int, x: int, y: int) -> int {
    y * width + x
}

/// A grid of two `u16` sides has fewer cells than fit in a `u32`.
pub proof fn lemma_area_fits(width: int, height: int)
    requires
        0 <= width <= 0xffff,
        0 <= height <= 0xffff,
    ensures
        0 <= width * height <= 0xffff * 0xffff,
{
    assert(0 <= width * height <= 0xffff * 0xffff) by (nonlinear_arith)
        requires
            0 <= width <= 0xffff,
            0 <= height <= 0xffff,
    ;
}

/// Cells of a `width` x `height` grid map to distinct positions inside the store.
pub proof fn lemma_flat_index(width: int, height: int, x1: int, y1: int, x2: int, y2: int)
    requires
        0 <= x1 < width,
        0 <= y1 < height,
        0 <= x2 < width,
        0 <= y2 < height,
    ensures
        0 <= flat_index(width, x1, y1) < width * height,
        (x1 != x2 || y1 != y2) ==> flat_index(width, x1, y1) != flat_index(width, x2, y2),
{
    assert(0 <= y1 * width + x1 < width * height) by (nonlinear_arith)
        requires
            0 <= x1 < width,
            0 <= y1 < height,
    ;
    if y1 < y2 {
        assert(y1 * width + x1 < y2 * width + x2) by (nonlinear_arith)
            requires
                0 <= x1 < width,
                0 <= x2,
                y1 < y2,
        ;
    } else if y2 < y1 {
        assert(y2 * width + x2 < y1 * width + x1) by (nonlinear_arith)
            requires
                0 <= x2 < width,
                0 <= x1,
                y2 < y1,
        ;
    }
}

/// A fixed-size grid of cells kept in one row-major vector.
pub struct CanvasBuffer<E> {
    buffer: Vec<E>,
    size_x: u16,
    size_y: u16,
}

impl<E> CanvasBuffer<E> {
    pub closed spec fn width(&self) -> nat {
        self.size_x as nat
    }

    pub closed spec fn height(&self) -> nat {
        self.size_y as nat
    }

    /// The backing store, row after row.
    pub closed spec fn cells(&self) -> Seq<E> {
        self.buffer@
    }

    pub open spec fn wf(&self) -> bool {
        self.cells().len() == self.width() * self.height()
    }

    pub open spec fn in_bounds(&self, x: int, y: int) -> bool {
        0 <= x < self.width() && 0 <= y < self.height()
    }

    /// The cell at column `x` of row `y`.
    pub closed spec fn at(&self, x: int, y: int) -> E {
        self.cells()[flat_index(self.width() as int, x, y)]
    }
}

impl<E: Copy> CanvasBuffer<E> {
    /// A grid of `size_x` by `size_y` cells, each holding `blank`.
    pub fn new(size_x: u16, size_y: u16, blank: E) -> (r: CanvasBuffer<E>)
        ensures
            r.wf(),
            r.width() == size_x,
            r.height() == size_y,
            forall|x: int, y: int| r.in_bounds(x, y) ==> #[trigger] r.at(x, y) == blank,
    {
        proof {
            lemma_area_fits(size_x as int, size_y as int);
        }
        let size: usize = size_x as usize * size_y as usize;
        let mut buffer: Vec<E> = Vec::new();
        let mut i: usize = 0;
        while i < size
            invariant
                i <= size,
                buffer@.len() == i,
                forall|j: int| 0 <= j < i ==> #[trigger] buffer@[j] == blank,
            decreases size - i,
        {
            buffer.push(blank);
            i = i + 1;
        }
        let r = CanvasBuffer { buffer, size_x, size_y };
        assert forall|x: int, y: int| r.in_bounds(x, y) implies #[trigger] r.at(x, y) == blank by {
            lemma_flat_index(size_x as int, size_y as int, x, y, x, y);
        }
        r
    }

    pub fn get_dimensions(&self) -> (r: (u16, u16))
        ensures
            r.0 == self.width(),
            r.1 == self.height(),
    {
        (self.size_x, self.size_y)
    }

    /// The cell at `(x, y)`; the position must lie inside the grid.
    pub fn get(&self, x: u16, y: u16) -> (r: E)
        requires
            self.wf(),
            self.in_bounds(x as int, y as int),
        ensures
            r == self.at(x as int, y as int),
    {
        proof {
            lemma_flat_index(self.width() as int, self.height() as int, x as int, y as int, x as int, y as int);
            lemma_area_fits(self.width() as int, self.height() as int);
            assert(y * self.width() <= flat_index(self.width() as int, x as int, y as int));
        }
        self.buffer[y as usize * self.size_x as usize + x as usize]
    }

    /// Overwrites the cell at `(x, y)`; the position must lie inside the grid.
    pub fn set(&mut self, x: u16, y: u16, e: E)
        requires
            old(self).wf(),
            old(self).in_bounds(x as int, y as int),
        ensures
            final(self).wf(),
            final(self).width() == old(self).width(),
            final(self).height() == old(self).height(),
            final(self).at(x as int, y as int) == e,
            forall|x2: int, y2: int|
                final(self).in_bounds(x2, y2) && (x2 != x || y2 != y) ==> #[trigger] final(self).at(x2, y2)
                    == old(self).at(x2, y2),
    {
        let ghost w = self.width() as int;
        let ghost h = self.height() as int;
        proof {
            lemma_flat_index(w, h, x as int, y as int, x as int, y as int);
            lemma_area_fits(w, h);
            assert(y * w <= flat_index(w, x as int, y as int));
        }
        let idx: usize = y as usize * self.size_x as usize + x as usize;
        self.buffer.set(idx, e);
        assert forall|x2: int, y2: int|
            self.in_bounds(x2, y2) && (x2 != x || y2 != y) implies #[trigger] self.at(x2, y2) == old(self).at(x2, y2) by {
            lemma_flat_index(w, h, x2, y2, x as int, y as int);
        }
    }
}

/// A grid buffer together with the blank cell that clearing restores.
pub struct Canvas<E> {
    blank: E,
    buffer: CanvasBuffer<E>,
}

impl<E> Canvas<E> {
    pub closed spec fn blank_cell(&self) -> E {
        self.blank
    }

    pub closed spec fn grid(&self) -> CanvasBuffer<E> {
        self.buffer
    }

    pub open spec fn wf(&self) -> bool {
        self.grid().wf()
    }

    pub open spec fn width(&self) -> nat {
        self.grid().width()
    }

    pub open spec fn height(&self) -> nat {
        self.grid().height()
    }

    pub open spec fn in_bounds(&self, x: int, y: int) -> bool {
        self.grid().in_bounds(x, y)
    }

    pub open spec fn at(&self, x: int, y: int) -> E {
        self.grid().at(x, y)
    }

    /// Whether `(x, y)` lies on the outermost ring of the grid.
    pub open spec fn on_border(&self, x: int, y: int) -> bool {
        x == 0 || y == 0 || x == self.width() - 1 || y == self.height() - 1
    }
}

impl<E: Copy> Canvas<E> {
    pub fn new(size_x: u16, size_y: u16, blank: E) -> (r: Canvas<E>)
        ensures
            r.wf(),
            r.width() == size_x,
            r.height() == size_y,
            r.blank_cell() == blank,
            forall|x: int, y: int| r.in_bounds(x, y) ==> #[trigger] r.at(x, y) == blank,
    {
        let buffer = CanvasBuffer::new(size_x, size_y, blank);
        Canvas { blank, buffer }
    }

    /// Overwrites the outermost ring of cells with `e`; other cells keep their value.
    pub fn frame(&mut self, e: E)
        requires
            old(self).wf(),
        ensures
            final(self).wf(),
            final(self).width() == old(self).width(),
            final(self).height() == old(self).height(),
            final(self).blank_cell() == old(self).blank_cell(),
            forall|x: int, y: int|
                final(self).in_bounds(x, y) ==> #[trigger] final(self).at(x, y) == if old(self).on_border(x, y) {
                    e
                } else {
                    old(self).at(x, y)
                },
    {
        let (size_x, size_y) = self.buffer.get_dimensions();
        if size_x == 0 || size_y == 0 {
            return;
        }
        let mut x: u16 = 0;
        while x < size_x
            invariant
                x <= size_x,
                size_x == old(self).width(),
                size_y == old(self).height(),
                size_y >= 1,
                self.wf(),
                self.width() == old(self).width(),
                self.height() == old(self).height(),
                self.blank_cell() == old(self).blank_cell(),
                forall|x2: int, y2: int|
                    self.in_bounds(x2, y2) ==> #[trigger] self.buffer.at(x2, y2) == if x2 < x && (y2 == 0 || y2
                        == size_y - 1) {
                        e
                    } else {
                        old(self).at(x2, y2)
                    },
            decreases size_x - x,
        {
            self.buffer.set(x, 0, e);
            self.buffer.set(x, size_y - 1, e);
            x = x + 1;
        }
        let mut y: u16 = 1;
        while y < size_y - 1
            invariant
                1 <= y <= size_y,
                size_x == old(self).width(),
                size_y == old(self).height(),
                size_x >= 1,
                self.wf(),
                self.width() == old(self).width(),
                self.height() == old(self).height(),
                self.blank_cell() == old(self).blank_cell(),
                forall|x2: int, y2: int|
                    self.in_bounds(x2, y2) ==> #[trigger] self.buffer.at(x2, y2) == if (y2 == 0 || y2 == size_y
                        - 1) || (y2 < y && (x2 == 0 || x2 == size_x - 1)) {
                        e
                    } else {
                        old(self).at(x2, y2)
                    },
            decreases size_y - y,
        {
            self.buffer.set(0, y, e);
            self.buffer.set(size_x - 1, y, e);
            y = y + 1;
        }
    }

    /// Overwrites every cell with the blank cell.
    pub fn clear(&mut self)
        requires
            old(self).wf(),
        ensures
            final(self).wf(),
            final(self).width() == old(self).width(),
            final(self).height() == old(self).height(),
            final(self).blank_cell() == old(self).blank_cell(),
            forall|x: int, y: int|
                final(self).in_bounds(x, y) ==> #[trigger] final(self).at(x, y) == final(self).blank_cell(),
    {
        let (size_x, size_y) = self.buffer.get_dimensions();
        let blank = self.blank;
        let mut y: u16 = 0;
        while y < size_y
            invariant
                y <= size_y,
                size_x == old(self).width(),
                size_y == old(self).height(),
                blank == old(self).blank_cell(),
                self.wf(),
                self.width() == old(self).width(),
                self.height() == old(self).height(),
                self.blank_cell() == old(self).blank_cell(),
                forall|x2: int, y2: int|
                    self.in_bounds(x2, y2) && y2 < y ==> #[trigger] self.buffer.at(x2, y2) == blank,
            decreases size_y - y,
        {
            let mut x: u16 = 0;
            while x < size_x
                invariant
                    x <= size_x,
                    y < size_y,
                    size_x == old(self).width(),
                    size_y == old(self).height(),
                    blank == old(self).blank_cell(),
                    self.wf(),
                    self.width() == old(self).width(),
                    self.height() == old(self).height(),
                    self.blank_cell() == old(self).blank_cell(),
                    forall|x2: int, y2: int|
                        self.in_bounds(x2, y2) && (y2 < y || (y2 == y && x2 < x)) ==> #[trigger] self.buffer.at(
                            x2,
                            y2,
                        ) == blank,
                decreases size_x - x,
            {
                self.buffer.set(x, y, blank);
                x = x + 1;
            }
            y = y + 1;
        }
    }

    /// Overwrites the cell at `(x, y)`; the position must lie inside the grid.
    pub fn draw(&mut self, x: u16, y: u16, snake: E)
        requires
            old(self).wf(),
            old(self).in_bounds(x as int, y as int),
        ensures
            final(self).wf(),
            final(self).width() == old(self).width(),
            final(self).height() == old(self).height(),
            final(self).blank_cell() == old(self).blank_cell(),
            final(self).at(x as int, y as int) == snake,
            forall|x2: int, y2: int|
                final(self).in_bounds(x2, y2) && (x2 != x || y2 != y) ==> #[trigger] final(self).at(x2, y2)
                    == old(self).at(x2, y2),
    {
        self.buffer.set(x, y, snake);
    }

    pub fn get_buffer(&self) -> (r: &CanvasBuffer<E>)
        ensures
            r == self.grid(),
    {
        &self.buffer
    }
}

/// Where a grid of `size_x` by `size_y` cells starts so that it stands centred on a terminal of
/// `term_x` by `term_y` cells; a grid taller than the terminal starts at the top row.
pub fn centering_offset(size_x: u16, size_y: u16, term_x: u16, term_y: u16) -> (r: (u16, u16))
    requires
        size_x / 2 <= term_x / 2,
    ensures
        r.0 == term_x / 2 - size_x / 2,
        r.1 == if size_y > term_y {
            0
        } else {
            term_y / 2 - size_y / 2
        },
{
    let padding_x = term_x / 2 - size_x / 2;
    let padding_y = if size_y > term_y {
        0
    } else {
        term_y / 2 - size_y / 2
    };
    (padding_x, padding_y)
}

} // verus!
