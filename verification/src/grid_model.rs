//! The 32 x 8 cell matrices that the sequencer keeps (trigger grid, note grid,
//! held buttons), indexed `[column][row]`.

use vstd::prelude::*;

verus! {

/// Number of step columns.
pub const COLS: usize = 32;
/// Number of grid rows (7 sequence rows and the control row).
pub const ROWS: usize = 8;

/// The cells of a matrix, column by column.
pub open spec fn cells(g: Vec<Vec<u8>>) -> Seq<Seq<u8>> {
    g@.map_values(|c: Vec<u8>| c@)
}

/// A cell matrix has 32 columns of 8 rows each.
pub open spec fn grid_shape_ok(g: Seq<Seq<u8>>) -> bool {
    &&& g.len() == COLS
    &&& forall|x: int| 0 <= x < COLS ==> (#[trigger] g[x]).len() == ROWS
}

/// The matrix whose every cell holds `value`.
pub open spec fn filled_grid(value: u8) -> Seq<Seq<u8>> {
    Seq::new(COLS as nat, |x: int| Seq::new(ROWS as nat, |y: int| value))
}

/// `g` with cell (x, y) replaced by `value`.
pub open spec fn grid_update(g: Seq<Seq<u8>>, x: int, y: int, value: u8) -> Seq<Seq<u8>> {
    g.update(x, g[x].update(y, value))
}

/// Appending a column appends its cells.
proof fn lemma_cells_push(before: Vec<Vec<u8>>, after: Vec<Vec<u8>>, c: Vec<u8>)
    requires
        after@ == before@.push(c),
    ensures
        cells(after) == cells(before).push(c@),
{
    assert(cells(after) =~= cells(before).push(c@));
}

/// Replacing a column replaces its cells.
proof fn lemma_cells_set(before: Vec<Vec<u8>>, after: Vec<Vec<u8>>, x: int, c: Vec<u8>)
    requires
        0 <= x < before@.len(),
        after@ == before@.update(x, c),
    ensures
        cells(after) == cells(before).update(x, c@),
{
    assert(cells(after) =~= cells(before).update(x, c@));
}

/// A column of `ROWS` cells, all holding `value`.
pub fn make_column(value: u8) -> (c: Vec<u8>)
    ensures
        c@ == Seq::new(ROWS as nat, |y: int| value),
{
    let mut c: Vec<u8> = Vec::new();
    let mut y: usize = 0;
    while y < ROWS
        invariant
            y <= ROWS,
            c@ == Seq::new(y as nat, |i: int| value),
        decreases ROWS - y,
    {
        c.push(value);
        y = y + 1;
        assert(c@ =~= Seq::new(y as nat, |i: int| value));
    }
    c
}

/// A 32 x 8 matrix with every cell holding `value`.
pub fn make_grid(value: u8) -> (g: Vec<Vec<u8>>)
    ensures
        cells(g) == filled_grid(value),
{
    let mut g: Vec<Vec<u8>> = Vec::new();
    let mut x: usize = 0;
    while x < COLS
        invariant
            x <= COLS,
            cells(g) =~= Seq::new(x as nat, |i: int| Seq::new(ROWS as nat, |y: int| value)),
        decreases COLS - x,
    {
        let c = make_column(value);
        let ghost before = g;
        g.push(c);
        proof {
            lemma_cells_push(before, g, c);
        }
        x = x + 1;
        assert(cells(g) =~= Seq::new(x as nat, |i: int| Seq::new(ROWS as nat, |y: int| value)));
    }
    g
}

/// A copy of a column.
pub fn copy_column(c: &Vec<u8>) -> (r: Vec<u8>)
    ensures
        r@ == c@,
{
    let mut r: Vec<u8> = Vec::new();
    let mut i: usize = 0;
    while i < c.len()
        invariant
            i <= c.len(),
            r@ == c@.subrange(0, i as int),
        decreases c.len() - i,
    {
        r.push(c[i]);
        i = i + 1;
        assert(r@ =~= c@.subrange(0, i as int));
    }
    assert(r@ =~= c@);
    r
}

/// A copy of a matrix (of any shape).
pub fn copy_grid(g: &Vec<Vec<u8>>) -> (r: Vec<Vec<u8>>)
    ensures
        cells(r) == cells(*g),
{
    let mut r: Vec<Vec<u8>> = Vec::new();
    let mut i: usize = 0;
    while i < g.len()
        invariant
            i <= g.len(),
            cells(r) =~= cells(*g).subrange(0, i as int),
        decreases g.len() - i,
    {
        let c = copy_column(&g[i]);
        let ghost before = r;
        r.push(c);
        proof {
            lemma_cells_push(before, r, c);
        }
        i = i + 1;
        assert(cells(r) =~= cells(*g).subrange(0, i as int));
    }
    assert(cells(r) =~= cells(*g));
    r
}

/// Writes `value` into cell (x, y).
pub fn set_cell(g: &mut Vec<Vec<u8>>, x: usize, y: usize, value: u8)
    requires
        grid_shape_ok(cells(*old(g))),
        x < COLS,
        y < ROWS,
    ensures
        cells(*final(g)) == grid_update(cells(*old(g)), x as int, y as int, value),
        grid_shape_ok(cells(*final(g))),
{
    assert(cells(*g)[x as int] == g@[x as int]@);
    let mut col = copy_column(&g[x]);
    col.set(y, value);
    let ghost before = *g;
    g.set(x, col);
    proof {
        lemma_cells_set(before, *g, x as int, col);
    }
    assert(cells(*g) =~= grid_update(cells(*old(g)), x as int, y as int, value));
}

/// Reads cell (x, y).
pub fn cell(g: &Vec<Vec<u8>>, x: usize, y: usize) -> (v: u8)
    requires
        grid_shape_ok(cells(*g)),
        x < COLS,
        y < ROWS,
    ensures
        v == cells(*g)[x as int][y as int],
{
    assert(cells(*g)[x as int] == g@[x as int]@);
    g[x][y]
}

/// Shape check of a matrix.
pub fn has_grid_shape(g: &Vec<Vec<u8>>) -> (b: bool)
    ensures
        b == grid_shape_ok(cells(*g)),
{
    if g.len() != COLS {
        return false;
    }
    let mut x: usize = 0;
    while x < COLS
        invariant
            g.len() == COLS,
            x <= COLS,
            forall|i: int| 0 <= i < x ==> (#[trigger] cells(*g)[i]).len() == ROWS,
        decreases COLS - x,
    {
        assert(cells(*g)[x as int] == g@[x as int]@);
        if g[x].len() != ROWS {
            assert(cells(*g)[x as int].len() != ROWS);
            return false;
        }
        x = x + 1;
    }
    true
}

} // verus!
