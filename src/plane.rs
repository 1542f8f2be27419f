use vstd::prelude::*;

verus! {

/// Position of cell (x, y) in the row-major order of a plane of the given width.
pub open spec fn cell_at(width: nat, x: int, y: int) -> int {
    y * width + x
}

/// What a plane holds: its dimensions and its cells in row-major order.
pub struct PlaneView<T> {
    pub width: nat,
    pub height: nat,
    pub cells: Seq<T>,
}

impl<T> PlaneView<T> {
    pub open spec fn in_bounds(self, x: int, y: int) -> bool {
        0 <= x < self.width && 0 <= y < self.height
    }

    pub open spec fn at(self, x: int, y: int) -> T {
        self.cells[cell_at(self.width, x, y)]
    }

    /// The cell count matches the dimensions.
    pub open spec fn wf(self) -> bool {
        self.cells.len() == self.width * self.height
    }
}

/// Proves that (x, y) inside a width-by-height plane has a row-major position
/// inside the plane.
pub proof fn lemma_cell_in_plane(width: nat, height: nat, x: int, y: int)
    requires
        0 <= x < width,
        0 <= y < height,
    ensures
        0 <= cell_at(width, x, y) < width * height,
        cell_at(width, x, y) == y * width + x,
{
    assert(0 <= y * width + x < width * height) by (nonlinear_arith)
        requires
            0 <= x < width,
            0 <= y < height,
    ;
}

/// A width-by-height grid of values stored in row-major order.
pub struct Plane<T> {
    width: u32,
    height: u32,
    cells: Vec<T>,
}

impl<T> View for Plane<T> {
    type V = PlaneView<T>;

    closed spec fn view(&self) -> PlaneView<T> {
        PlaneView { width: self.width as nat, height: self.height as nat, cells: self.cells@ }
    }
}

impl<T> Plane<T> {
    #[verifier::type_invariant]
    spec fn inv(self) -> bool {
        self.cells.len() == self.width as nat * self.height as nat
    }

    /// A plane over the given cells, when their count is width times height.
    pub fn new(width: u32, height: u32, cells: Vec<T>) -> (r: Option<Plane<T>>)
        ensures
            r is Some <==> cells@.len() == width * height,
            r matches Some(p) ==> p@ == (PlaneView { width: width as nat, height: height as nat, cells: cells@ }),
    {
        assert(width * height <= u32::MAX as int * u32::MAX as int) by (nonlinear_arith)
            requires
                width <= u32::MAX,
                height <= u32::MAX,
        ;
        let n = width as u64 * height as u64;
        if cells.len() as u64 == n {
            Some(Plane { width, height, cells })
        } else {
            None
        }
    }

    /// The plane with no cells.
    pub fn empty() -> (r: Plane<T>)
        ensures
            r@.width == 0,
            r@.height == 0,
            r@.cells.len() == 0,
    {
        Plane { width: 0, height: 0, cells: Vec::new() }
    }

    /// The number of cells, which is width times height.
    pub fn cell_count(&self) -> (n: usize)
        ensures
            n == self@.cells.len(),
            self@.wf(),
    {
        proof {
            use_type_invariant(self);
        }
        self.cells.len()
    }

    pub fn width(&self) -> (w: u32)
        ensures
            w == self@.width,
    {
        self.width
    }

    pub fn height(&self) -> (h: u32)
        ensures
            h == self@.height,
    {
        self.height
    }

    /// The cells in row-major order.
    pub fn cells(&self) -> (c: &Vec<T>)
        ensures
            c@ == self@.cells,
    {
        &self.cells
    }

    /// Gives up the plane and returns its cells in row-major order.
    pub fn into_cells(self) -> (c: Vec<T>)
        ensures
            c@ == self@.cells,
    {
        self.cells
    }

    /// Row-major position of (x, y).
    pub fn index_of(&self, x: u32, y: u32) -> (i: usize)
        requires
            self@.in_bounds(x as int, y as int),
        ensures
            i == cell_at(self@.width, x as int, y as int),
            i < self@.cells.len(),
    {
        proof {
            use_type_invariant(self);
            lemma_cell_in_plane(self.width as nat, self.height as nat, x as int, y as int);
        }
        y as usize * self.width as usize + x as usize
    }
}

impl<T: Copy> Plane<T> {
    /// A plane whose every cell holds `value`; `None` when the cell count does not fit
    /// in memory indices.
    pub fn filled(width: u32, height: u32, value: T) -> (r: Option<Plane<T>>)
        ensures
            r is Some <==> width * height <= usize::MAX,
            r matches Some(p) ==> p@.width == width && p@.height == height && p@.cells
                == Seq::new((width * height) as nat, |i: int| value),
    {
        let n = (width as u64).checked_mul(height as u64);
        match n {
            None => None,
            Some(n) => {
                if n > usize::MAX as u64 {
                    return None;
                }
                let n = n as usize;
                let mut cells: Vec<T> = Vec::with_capacity(n);
                let mut i: usize = 0;
                while i < n
                    invariant
                        i <= n,
                        cells@.len() == i,
                        forall|j: int| 0 <= j < i ==> cells@[j] == value,
                    decreases n - i,
                {
                    cells.push(value);
                    i = i + 1;
                }
                assert(cells@ == Seq::new(n as nat, |i: int| value));
                Some(Plane { width, height, cells })
            }
        }
    }

    /// A copy of the plane.
    pub fn duplicate(&self) -> (r: Plane<T>)
        ensures
            r@ == self@,
    {
        proof {
            use_type_invariant(self);
        }
        let n = self.cells.len();
        let mut cells: Vec<T> = Vec::with_capacity(n);
        let mut i: usize = 0;
        while i < n
            invariant
                i <= n,
                n == self.cells@.len(),
                cells@ == self.cells@.subrange(0, i as int),
            decreases n - i,
        {
            cells.push(self.cells[i]);
            i = i + 1;
        }
        assert(cells@ == self.cells@);
        Plane { width: self.width, height: self.height, cells }
    }

    /// The value at (x, y).
    pub fn get(&self, x: u32, y: u32) -> (v: T)
        requires
            self@.in_bounds(x as int, y as int),
        ensures
            v == self@.at(x as int, y as int),
    {
        let i = self.index_of(x, y);
        self.cells[i]
    }

    /// The value at row-major position `i`.
    pub fn cell(&self, i: usize) -> (v: T)
        requires
            i < self@.cells.len(),
        ensures
            v == self@.cells[i as int],
    {
        self.cells[i]
    }

    /// Writes `v` at (x, y) and leaves every other cell as it was.
    pub fn set(&mut self, x: u32, y: u32, v: T)
        requires
            old(self)@.in_bounds(x as int, y as int),
        ensures
            final(self)@ == (PlaneView {
                cells: old(self)@.cells.update(cell_at(old(self)@.width, x as int, y as int), v),
                ..old(self)@
            }),
    {
        proof {
            use_type_invariant(&*self);
        }
        let i = self.index_of(x, y);
        self.cells[i] = v;
    }
}

} // verus!
