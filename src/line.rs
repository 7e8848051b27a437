use vstd::prelude::*;

verus! {

/// The contents of one terminal row, one character per cell.
pub struct Line {
    pub cells: Vec<char>,
}

impl View for Line {
    type V = Seq<char>;

    open spec fn view(&self) -> Seq<char> {
        self.cells@
    }
}

/// A row of `width` blank cells.
pub open spec fn blank_row(width: nat) -> Seq<char> {
    Seq::new(width, |_i: int| ' ')
}

impl Line {
    /// Builds a line holding the given characters.
    pub fn from_cells(cells: Vec<char>) -> (r: Line)
        ensures
            r@ == cells@,
    {
        Line { cells }
    }

    /// A blank line of the given width.
    pub fn with_width(width: usize) -> (r: Line)
        ensures
            r@ == blank_row(width as nat),
    {
        let mut cells: Vec<char> = Vec::new();
        let mut i: usize = 0;
        while i < width
            invariant
                i <= width,
                cells@ == blank_row(i as nat),
            decreases width - i,
        {
            cells.push(' ');
            i = i + 1;
            assert(cells@ =~= blank_row(i as nat));
        }
        Line { cells }
    }

    /// A copy of this line.
    pub fn duplicate(&self) -> (r: Line)
        ensures
            r@ == self@,
    {
        let mut cells: Vec<char> = Vec::new();
        let mut i: usize = 0;
        while i < self.cells.len()
            invariant
                i <= self.cells@.len(),
                cells@ == self.cells@.subrange(0, i as int),
            decreases self.cells@.len() - i,
        {
            cells.push(self.cells[i]);
            i = i + 1;
            assert(cells@ =~= self.cells@.subrange(0, i as int));
        }
        assert(cells@ =~= self.cells@);
        Line { cells }
    }

    /// Whether two lines hold the same cells.
    pub fn same_content(&self, other: &Line) -> (r: bool)
        ensures
            r == (self@ == other@),
    {
        if self.cells.len() != other.cells.len() {
            return false;
        }
        let mut i: usize = 0;
        while i < self.cells.len()
            invariant
                i <= self.cells@.len(),
                self.cells@.len() == other.cells@.len(),
                forall|j: int| 0 <= j < i ==> self.cells@[j] == other.cells@[j],
            decreases self.cells@.len() - i,
        {
            if self.cells[i] != other.cells[i] {
                return false;
            }
            i = i + 1;
        }
        assert(self@ =~= other@);
        true
    }
}

} // verus!
