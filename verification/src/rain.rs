//! The screen: a grid of cells, the drops that fall through it, and the
//! tick that moves both on.

use crate::cell::{Cell, BRIGHTEST, INVISIBLE};
use crate::chance::{pick_below, ratio};
use crate::rates::{Rates, RATE_UNIT, REFERENCE_WIDTH};
use rand::rngs::ThreadRng;
use vstd::prelude::*;

verus! {

/// The head of a falling streak: it lights the cell it is in and moves one
/// row down each tick.
#[derive(Clone, Copy, Debug, PartialEq, Eq, Structural)]
pub struct Drop {
    pub column: usize,
    pub row: usize,
}

impl Drop {
    /// The drop one tick later: one row further down, in its column.
    pub open spec fn fallen(self) -> Drop {
        Drop { column: self.column, row: (self.row + 1) as usize }
    }
}

/// Whether some drop of `drops` is at `(row, column)`.
pub open spec fn headed(drops: Seq<Drop>, row: int, column: int) -> bool {
    exists|i: int|
        0 <= i < drops.len() && (#[trigger] drops[i]).row == row && drops[i].column == column
}

/// What a drop leaves in the list when the drops move on over a grid of
/// `width` columns and `height` rows: itself one row down if it is inside
/// the grid, nothing if it is not.
pub open spec fn moved(width: nat, height: nat, drop: Drop) -> Option<Drop> {
    if drop.row < height && drop.column < width {
        Some(drop.fallen())
    } else {
        None
    }
}

/// `moved`, as a function of the drop.
pub open spec fn mover(width: nat, height: nat) -> spec_fn(Drop) -> Option<Drop> {
    |drop: Drop| moved(width, height, drop)
}

/// What a screen is, to its callers: `height` rows of `width` cells each,
/// the drops in the order they were started, and the rates.
pub struct ScreenView {
    pub width: nat,
    pub height: nat,
    pub cells: Seq<Seq<Cell>>,
    pub drops: Seq<Drop>,
    pub rates: Rates,
}

impl ScreenView {
    /// Whether `(row, column)` is a position of the grid.
    pub open spec fn within(self, row: int, column: int) -> bool {
        0 <= row < self.height && 0 <= column < self.width
    }

    /// The grid has `height` rows of `width` cells.
    pub open spec fn shaped(self) -> bool {
        &&& self.cells.len() == self.height
        &&& forall|row: int| 0 <= row < self.height ==> (#[trigger] self.cells[row]).len() == self.width
    }

    /// The grid has its shape and a size that a machine can hold, every cell
    /// is well formed, so that its brightness lies between `INVISIBLE` and
    /// `BRIGHTEST`, and the rates are well formed.
    pub open spec fn wf(self) -> bool {
        &&& self.shaped()
        &&& self.width <= usize::MAX
        &&& self.height <= usize::MAX
        &&& self.rates.wf()
        &&& forall|row: int, column: int|
            self.within(row, column) ==> (#[trigger] self.cells[row][column]).wf()
    }

    /// Whether some drop of the list is at `(row, column)`.
    pub open spec fn under_head(self, row: int, column: int) -> bool {
        headed(self.drops, row, column)
    }

    /// Whether a drop could start in `column`: the grid has a top row, and
    /// the cell of the column in it is not drawn.
    pub open spec fn open_at(self, column: int) -> bool {
        self.within(0, column) && self.cells[0][column].brightness == INVISIBLE
    }

    /// Whether `next` is this screen with nothing changed but the cells.
    pub open spec fn recelled_to(self, next: ScreenView) -> bool {
        &&& next.width == self.width
        &&& next.height == self.height
        &&& next.drops == self.drops
        &&& next.rates == self.rates
        &&& next.shaped()
    }

    /// Whether `next` is this screen brought to `width` columns and `height`
    /// rows: a cell that both grids have is carried over as it is, at its
    /// position, and every other cell of `next` is fresh, so unlit. Drops
    /// and rates are kept.
    pub open spec fn resized_to(self, next: ScreenView, width: nat, height: nat) -> bool {
        &&& next.width == width
        &&& next.height == height
        &&& next.drops == self.drops
        &&& next.rates == self.rates
        &&& next.shaped()
        &&& forall|row: int, column: int|
            next.within(row, column) ==> if self.within(row, column) {
                #[trigger] next.cells[row][column] == self.cells[row][column]
            } else {
                next.cells[row][column].fresh(self.rates)
            }
    }

    /// Whether `next` is this screen after every cell has ticked once.
    pub open spec fn ticked_to(self, next: ScreenView) -> bool {
        &&& self.recelled_to(next)
        &&& forall|row: int, column: int|
            self.within(row, column) ==> self.cells[row][column].may_become(
                #[trigger] next.cells[row][column],
                self.rates,
            )
    }

    /// The cell at `(row, column)` after the drops have moved on: lit if a
    /// drop was there, else as before.
    pub open spec fn cell_after_drops(self, row: int, column: int) -> Cell {
        if self.under_head(row, column) {
            self.cells[row][column].lit()
        } else {
            self.cells[row][column]
        }
    }

    /// This screen after the drops have moved on: every drop inside the grid
    /// has lit its cell and fallen one row, every other drop is gone, and
    /// the order of the drops is kept.
    pub open spec fn drops_advanced(self) -> ScreenView {
        ScreenView {
            drops: self.drops.filter_map(mover(self.width, self.height)),
            cells: Seq::new(
                self.height,
                |row: int| Seq::new(self.width, |column: int| self.cell_after_drops(row, column)),
            ),
            ..self
        }
    }

    /// The drops of `next` that this screen does not have yet.
    pub open spec fn newcomers(self, next: ScreenView) -> Seq<Drop> {
        next.drops.skip(self.drops.len() as int)
    }

    /// Whether some drop among `started` is at the top of `column`.
    pub open spec fn started_in(started: Seq<Drop>, column: int) -> bool {
        exists|i: int| 0 <= i < started.len() && (#[trigger] started[i]).column == column
    }

    /// Whether `next` is this screen after new drops have been started.
    ///
    /// The new drops stand behind the old ones. Each is in the top row, in a
    /// column whose top cell was not drawn, and no two share a column. Their
    /// cells are as bright as can be and otherwise unchanged; no other cell
    /// changes. There are no more of them than the spawn budget rounded up,
    /// and no fewer than the budget rounded down unless the columns ran
    /// out: then no top cell of `next` is left undrawn.
    pub open spec fn spawned_to(self, next: ScreenView) -> bool {
        let started = self.newcomers(next);
        &&& next.width == self.width
        &&& next.height == self.height
        &&& next.rates == self.rates
        &&& next.shaped()
        &&& self.drops.len() <= next.drops.len()
        &&& next.drops.take(self.drops.len() as int) == self.drops
        &&& forall|i: int|
            0 <= i < started.len() ==> (#[trigger] started[i]).row == 0 && self.open_at(
                started[i].column as int,
            )
        &&& forall|i: int, j: int|
            0 <= i < j < started.len() ==> (#[trigger] started[i]).column != (
            #[trigger] started[j]).column
        &&& forall|row: int, column: int|
            self.within(row, column) ==> #[trigger] next.cells[row][column] == if row == 0
                && Self::started_in(started, column) {
                self.cells[row][column].kindled()
            } else {
                self.cells[row][column]
            }
        &&& started.len() <= self.rates.spawn_tries(self.width)
        &&& started.len() >= self.rates.sure_spawns(self.width) || forall|column: int|
            !#[trigger] next.open_at(column)
    }

    /// Whether `next` is this screen one tick later, at `width` columns and
    /// `height` rows: resized, then every cell ticked, then the drops moved
    /// on, then new drops started.
    pub open spec fn updated_to(self, next: ScreenView, width: nat, height: nat) -> bool {
        exists|resized: ScreenView, ticked: ScreenView|
            {
                &&& self.resized_to(resized, width, height)
                &&& #[trigger] resized.ticked_to(ticked)
                &&& ticked.drops_advanced().spawned_to(next)
            }
    }
}

/// The screen.
pub struct Screen {
    grid: Vec<Vec<Cell>>,
    drops: Vec<Drop>,
    width: usize,
    height: usize,
    rates: Rates,
    rng: ThreadRng,
}

/// The cells of the first `height` rows and `width` columns of `grid`.
spec fn cells_of(grid: Seq<Vec<Cell>>, width: nat, height: nat) -> Seq<Seq<Cell>> {
    Seq::new(height, |row: int| Seq::new(width, |column: int| grid[row]@[column]))
}

/// Whether `grid` has at least `height` rows of at least `width` cells.
spec fn covers(grid: Seq<Vec<Cell>>, width: nat, height: nat) -> bool {
    &&& height <= grid.len()
    &&& forall|row: int| 0 <= row < height ==> width <= (#[trigger] grid[row])@.len()
}

/// Whether `grid` has exactly `rows` rows of exactly `columns` cells.
spec fn measures(grid: Seq<Vec<Cell>>, columns: nat, rows: nat) -> bool {
    &&& grid.len() == rows
    &&& forall|row: int| 0 <= row < rows ==> (#[trigger] grid[row])@.len() == columns
}

impl View for Screen {
    type V = ScreenView;

    closed spec fn view(&self) -> ScreenView {
        ScreenView {
            width: self.width as nat,
            height: self.height as nat,
            cells: cells_of(self.grid@, self.width as nat, self.height as nat),
            drops: self.drops@,
            rates: self.rates,
        }
    }
}

/// Writes `cell` at `(row, column)` of `grid` and leaves every other cell
/// and the shape of the grid as they were.
fn put(grid: &mut Vec<Vec<Cell>>, row: usize, column: usize, cell: Cell)
    requires
        row < old(grid)@.len(),
        column < old(grid)@[row as int]@.len(),
    ensures
        final(grid)@.len() == old(grid)@.len(),
        forall|r: int|
            0 <= r < old(grid)@.len() ==> (#[trigger] final(grid)@[r])@.len() == old(grid)@[r]@.len(),
        forall|r: int, c: int|
            0 <= r < old(grid)@.len() && 0 <= c < old(grid)@[r]@.len()
                ==> #[trigger] final(grid)@[r]@[c] == if r == row && c == column {
                cell
            } else {
                old(grid)@[r]@[c]
            },
{
    grid[row][column] = cell;
}

/// A grid of `height + 1` rows of `width + 1` unlit cells, each made by
/// `Cell::new`.
fn new_cell_vec(rng: &mut ThreadRng, rates: &Rates, width: usize, height: usize) -> (grid: Vec<
    Vec<Cell>,
>)
    requires
        rates.wf(),
        width < usize::MAX,
        height < usize::MAX,
    ensures
        measures(grid@, (width + 1) as nat, (height + 1) as nat),
        forall|row: int, column: int|
            0 <= row <= height && 0 <= column <= width ==> (#[trigger] grid@[row]@[column]).fresh(
                *rates,
            ),
{
    let mut grid: Vec<Vec<Cell>> = Vec::new();
    let mut row: usize = 0;
    while row <= height
        invariant
            rates.wf(),
            width < usize::MAX,
            height < usize::MAX,
            row <= height + 1,
            measures(grid@, (width + 1) as nat, row as nat),
            forall|r: int, c: int|
                0 <= r < row && 0 <= c <= width ==> (#[trigger] grid@[r]@[c]).fresh(*rates),
        decreases height + 1 - row,
    {
        let mut line: Vec<Cell> = Vec::new();
        let mut column: usize = 0;
        while column <= width
            invariant
                rates.wf(),
                width < usize::MAX,
                column <= width + 1,
                line@.len() == column,
                forall|c: int| 0 <= c < column ==> (#[trigger] line@[c]).fresh(*rates),
            decreases width + 1 - column,
        {
            line.push(Cell::new(rng, rates));
            column = column + 1;
        }
        grid.push(line);
        row = row + 1;
    }
    grid
}

impl Screen {
    /// The grid reaches over the screen's rows and columns, and the view is
    /// well formed.
    pub closed spec fn wf(&self) -> bool {
        &&& covers(self.grid@, self.width as nat, self.height as nat)
        &&& self@.wf()
    }

    /// Whether the screen holds exactly `rows` rows of `columns` cells in
    /// memory, which may be more than it shows.
    pub closed spec fn allocated(&self, columns: nat, rows: nat) -> bool {
        measures(self.grid@, columns, rows)
    }

    /// A well-formed screen has a well-formed view.
    pub proof fn wf_view(&self)
        requires
            self.wf(),
        ensures
            self@.wf(),
    {
    }

    /// A screen of `height` rows and `width` columns at the standard rates,
    /// every cell unlit and no drop falling. It holds one row and one column
    /// more than it shows.
    pub fn new(height: usize, width: usize) -> (screen: Screen)
        requires
            height < usize::MAX,
            width < usize::MAX,
        ensures
            screen.wf(),
            screen@.wf(),
            screen@.width == width,
            screen@.height == height,
            screen@.drops == Seq::<Drop>::empty(),
            screen@.rates == Rates::standard_rates(),
            screen.allocated((width + 1) as nat, (height + 1) as nat),
            forall|row: int, column: int|
                screen@.within(row, column) ==> (#[trigger] screen@.cells[row][column]).fresh(
                    screen@.rates,
                ),
    {
        Self::with_rates(height, width, Rates::standard())
    }

    /// As `new`, at the given rates.
    pub fn with_rates(height: usize, width: usize, rates: Rates) -> (screen: Screen)
        requires
            height < usize::MAX,
            width < usize::MAX,
            rates.wf(),
        ensures
            screen.wf(),
            screen@.wf(),
            screen@.width == width,
            screen@.height == height,
            screen@.drops == Seq::<Drop>::empty(),
            screen@.rates == rates,
            screen.allocated((width + 1) as nat, (height + 1) as nat),
            forall|row: int, column: int|
                screen@.within(row, column) ==> (#[trigger] screen@.cells[row][column]).fresh(rates),
    {
        let mut rng: ThreadRng = rand::thread_rng();
        let grid: Vec<Vec<Cell>> = new_cell_vec(&mut rng, &rates, width, height);
        Screen { grid, drops: Vec::new(), width, height, rates, rng }
    }

    /// Brings the screen to `new_x` columns and `new_y` rows. Cells that
    /// stay inside keep their place and all of their state; cells that come
    /// into view are made by `Cell::new`. The drops are left alone: the next
    /// tick drops those that are outside.
    pub fn resize(&mut self, new_x: usize, new_y: usize)
        requires
            old(self).wf(),
        ensures
            final(self).wf(),
            old(self)@.resized_to(final(self)@, new_x as nat, new_y as nat),
            final(self).allocated(new_x as nat, new_y as nat),
    {
        let mut grid: Vec<Vec<Cell>> = Vec::new();
        let mut row: usize = 0;
        while row < new_y
            invariant
                self.grid == old(self).grid,
                self.drops == old(self).drops,
                self.width == old(self).width,
                self.height == old(self).height,
                self.rates == old(self).rates,
                old(self).wf(),
                row <= new_y,
                measures(grid@, new_x as nat, row as nat),
                forall|r: int, c: int|
                    0 <= r < row && 0 <= c < new_x ==> if old(self)@.within(r, c) {
                        #[trigger] grid@[r]@[c] == old(self)@.cells[r][c]
                    } else {
                        grid@[r]@[c].fresh(self.rates)
                    },
            decreases new_y - row,
        {
            let mut line: Vec<Cell> = Vec::new();
            let mut column: usize = 0;
            while column < new_x
                invariant
                    self.grid == old(self).grid,
                    self.drops == old(self).drops,
                    self.width == old(self).width,
                    self.height == old(self).height,
                    self.rates == old(self).rates,
                    old(self).wf(),
                    row < new_y,
                    column <= new_x,
                    line@.len() == column,
                    forall|c: int|
                        0 <= c < column ==> if old(self)@.within(row as int, c) {
                            #[trigger] line@[c] == old(self)@.cells[row as int][c]
                        } else {
                            line@[c].fresh(self.rates)
                        },
                decreases new_x - column,
            {
                let cell: Cell = if column < self.width && row < self.height {
                    self.grid[row][column]
                } else {
                    Cell::new(&mut self.rng, &self.rates)
                };
                line.push(cell);
                column = column + 1;
            }
            grid.push(line);
            row = row + 1;
        }
        self.grid = grid;
        self.width = new_x;
        self.height = new_y;
    }

    /// Ticks every cell of the grid once.
    pub fn mutate_screen(&mut self)
        requires
            old(self).wf(),
        ensures
            final(self).wf(),
            old(self)@.ticked_to(final(self)@),
    {
        let ghost before = self.grid@;
        let mut row: usize = 0;
        while row < self.height
            invariant
                self.drops == old(self).drops,
                self.width == old(self).width,
                self.height == old(self).height,
                self.rates == old(self).rates,
                before == old(self).grid@,
                old(self).wf(),
                row <= self.height,
                covers(self.grid@, self.width as nat, self.height as nat),
                forall|r: int, c: int|
                    0 <= r < self.height && 0 <= c < self.width ==> if r < row {
                        before[r]@[c].may_become(#[trigger] self.grid@[r]@[c], self.rates)
                    } else {
                        self.grid@[r]@[c] == before[r]@[c]
                    },
            decreases self.height - row,
        {
            let mut column: usize = 0;
            while column < self.width
                invariant
                    self.drops == old(self).drops,
                    self.width == old(self).width,
                    self.height == old(self).height,
                    self.rates == old(self).rates,
                    before == old(self).grid@,
                    old(self).wf(),
                    row < self.height,
                    column <= self.width,
                    covers(self.grid@, self.width as nat, self.height as nat),
                    forall|r: int, c: int|
                        0 <= r < self.height && 0 <= c < self.width ==> if r < row || (r == row
                            && c < column) {
                            before[r]@[c].may_become(#[trigger] self.grid@[r]@[c], self.rates)
                        } else {
                            self.grid@[r]@[c] == before[r]@[c]
                        },
                decreases self.width - column,
            {
                let mut cell: Cell = self.grid[row][column];
                cell.tick(&mut self.rng, &self.rates);
                put(&mut self.grid, row, column, cell);
                column = column + 1;
            }
            row = row + 1;
        }
        proof {
            let was = old(self)@;
            let now = self@;
            assert forall|r: int, c: int| was.within(r, c) implies was.cells[r][c].may_become(
                #[trigger] now.cells[r][c],
                was.rates,
            ) && now.cells[r][c].wf() by {
                assert(was.cells[r][c] == before[r]@[c]);
                assert(now.cells[r][c] == self.grid@[r]@[c]);
                assert(was.cells[r][c].wf());
                was.cells[r][c].tick_keeps_wf(now.cells[r][c], was.rates);
            }
        }
    }

    /// Moves the drops on. Each drop inside the grid lights its cell, which
    /// then starts to dim anew, and falls one row; each drop outside the grid
    /// is taken off the list.
    pub fn advance_drops(&mut self)
        requires
            old(self).wf(),
        ensures
            final(self).wf(),
            final(self)@ == old(self)@.drops_advanced(),
    {
        let ghost was = self@;
        let ghost before = self.grid@;
        let mut kept: Vec<Drop> = Vec::new();
        let mut i: usize = 0;
        while i < self.drops.len()
            invariant
                self.drops == old(self).drops,
                self.width == old(self).width,
                self.height == old(self).height,
                self.rates == old(self).rates,
                was == old(self)@,
                before == old(self).grid@,
                old(self).wf(),
                i <= self.drops@.len(),
                covers(self.grid@, self.width as nat, self.height as nat),
                kept@ == was.drops.take(i as int).filter_map(mover(was.width, was.height)),
                forall|r: int, c: int|
                    0 <= r < self.height && 0 <= c < self.width ==> #[trigger] self.grid@[r]@[c]
                        == if headed(was.drops.take(i as int), r, c) {
                        before[r]@[c].lit()
                    } else {
                        before[r]@[c]
                    },
            decreases self.drops@.len() - i,
        {
            let drop: Drop = self.drops[i];
            let ghost seen = was.drops.take(i as int);
            let ghost more = was.drops.take(i + 1);
            proof {
                was.drops.lemma_filter_map_take_succ(mover(was.width, was.height), i as int);
                assert(more[i as int] == drop);
                assert forall|r: int, c: int|
                    headed(more, r, c) == (headed(seen, r, c) || (drop.row == r && drop.column
                        == c)) by {
                    if headed(seen, r, c) {
                        let j = choose|j: int|
                            0 <= j < seen.len() && (#[trigger] seen[j]).row == r && seen[j].column
                                == c;
                        assert(more[j] == seen[j]);
                    }
                    if headed(more, r, c) {
                        let j = choose|j: int|
                            0 <= j < more.len() && (#[trigger] more[j]).row == r && more[j].column
                                == c;
                        if j < i {
                            assert(seen[j] == more[j]);
                        }
                    }
                }
            }
            if drop.row < self.height && drop.column < self.width {
                let under: Cell = self.grid[drop.row][drop.column];
                let lit: Cell = Cell {
                    brightness: BRIGHTEST,
                    glyph: under.glyph,
                    flip_timer: under.flip_timer,
                    dim_timer: 0,
                };
                put(&mut self.grid, drop.row, drop.column, lit);
                kept.push(Drop { column: drop.column, row: drop.row + 1 });
            }
            i = i + 1;
        }
        self.drops = kept;
        proof {
            let then = was.drops_advanced();
            assert(was.drops.take(was.drops.len() as int) == was.drops);
            assert forall|r: int, c: int| was.within(r, c) implies #[trigger] self@.cells[r][c]
                == then.cells[r][c] && self@.cells[r][c].wf() by {
                assert(self@.cells[r][c] == self.grid@[r]@[c]);
                assert(was.cells[r][c] == before[r]@[c]);
                assert(was.cells[r][c].wf());
            }
            assert(self@.cells =~~= then.cells);
        }
    }

    /// The columns in which a drop could start, from left to right.
    pub fn open_columns(&self) -> (open: Vec<usize>)
        requires
            self.wf(),
        ensures
            forall|i: int| 0 <= i < open@.len() ==> self@.open_at(#[trigger] open@[i] as int),
            forall|column: int| self@.open_at(column) ==> open@.contains(column as usize),
            forall|i: int, j: int| 0 <= i < j < open@.len() ==> open@[i] < open@[j],
    {
        let mut open: Vec<usize> = Vec::new();
        if self.height == 0 {
            return open;
        }
        let mut column: usize = 0;
        while column < self.width
            invariant
                self.wf(),
                0 < self.height,
                column <= self.width,
                forall|i: int|
                    0 <= i < open@.len() ==> self@.open_at(#[trigger] open@[i] as int) && open@[i]
                        < column,
                forall|c: int| 0 <= c < column && self@.open_at(c) ==> open@.contains(c as usize),
                forall|i: int, j: int| 0 <= i < j < open@.len() ==> open@[i] < open@[j],
            decreases self.width - column,
        {
            let ghost seen = open@;
            assert(self@.cells[0][column as int] == self.grid@[0]@[column as int]);
            if self.grid[0][column].brightness == INVISIBLE {
                open.push(column);
                assert(open@[seen.len() as int] == column);
            }
            assert forall|c: int| 0 <= c < column + 1 && self@.open_at(c) implies open@.contains(
                c as usize,
            ) by {
                if c < column {
                    let at = choose|at: int| 0 <= at < seen.len() && seen[at] == c as usize;
                    assert(open@[at] == c as usize);
                }
            }
            column = column + 1;
        }
        open
    }

    /// Starts a drop at the top of `column`, if one could start there: the
    /// cell becomes as bright as can be and the drop joins the list. Else
    /// nothing changes.
    pub fn spawn_at(&mut self, column: usize) -> (started: bool)
        requires
            old(self).wf(),
        ensures
            final(self).wf(),
            started == old(self)@.open_at(column as int),
            started ==> final(self)@ == (ScreenView {
                drops: old(self)@.drops.push(Drop { column, row: 0 }),
                cells: old(self)@.cells.update(
                    0,
                    old(self)@.cells[0].update(column as int, old(self)@.cells[0][column as int].kindled()),
                ),
                ..old(self)@
            }),
            !started ==> final(self)@ == old(self)@,
    {
        if 0 < self.height && column < self.width {
            let under: Cell = self.grid[0][column];
            assert(self@.cells[0][column as int] == under);
            if under.brightness == INVISIBLE {
                let lit: Cell = Cell {
                    brightness: BRIGHTEST,
                    glyph: under.glyph,
                    flip_timer: under.flip_timer,
                    dim_timer: under.dim_timer,
                };
                put(&mut self.grid, 0, column, lit);
                self.drops.push(Drop { column, row: 0 });
                proof {
                    let was = old(self)@;
                    let then = was.cells.update(0, was.cells[0].update(column as int, lit));
                    assert forall|r: int, c: int| was.within(r, c) implies #[trigger] self@.cells[r][c]
                        == then[r][c] && self@.cells[r][c].wf() by {
                        assert(self@.cells[r][c] == self.grid@[r]@[c]);
                        assert(was.cells[r][c] == old(self).grid@[r]@[c]);
                        assert(was.cells[r][c].wf());
                    }
                    assert(self@.cells =~~= then);
                }
                return true;
            }
        }
        false
    }

    /// Starts new drops, as many as the spawn budget and chance allow.
    ///
    /// The budget is `drop_rate * width / REFERENCE_WIDTH`. While any of it is
    /// left, one attempt is made and one whole is taken off. An attempt
    /// succeeds with the probability of what is left, at most 1; it then
    /// starts a drop in a column chosen at random among those whose top cell
    /// is not drawn. When there is no such column, the attempts end.
    pub fn spawn_drops(&mut self)
        requires
            old(self).wf(),
        ensures
            final(self).wf(),
            old(self)@.spawned_to(final(self)@),
    {
        let ghost was = self@;
        let ghost whole = was.rates.spawn_budget(was.width);
        let unit: u32 = RATE_UNIT * REFERENCE_WIDTH;
        assert(self.rates.drop_rate * self.width <= 0xffff_ffff * 0xffff_ffff_ffff_ffff)
            by (nonlinear_arith)
            requires
                self.rates.drop_rate <= 0xffff_ffff,
                self.width <= 0xffff_ffff_ffff_ffff,
        ;
        let mut budget: u128 = self.rates.drop_rate as u128 * self.width as u128;
        let mut full: bool = false;
        let ghost mut tried: int = 0;
        assert(self@.drops.skip(was.drops.len() as int) =~= Seq::<Drop>::empty());
        assert(self@.drops.take(was.drops.len() as int) =~= was.drops);
        assert(whole == budget) by (nonlinear_arith)
            requires
                whole == was.rates.drop_rate * was.width,
                budget == self.rates.drop_rate as u128 * self.width as u128,
                was.rates.drop_rate == self.rates.drop_rate,
                was.width == self.width,
        ;
        while budget > 0 && !full
            invariant
                old(self).wf(),
                self.wf(),
                was == old(self)@,
                whole == was.rates.spawn_budget(was.width),
                unit == Rates::budget_unit(),
                unit == 80000,
                0 <= tried,
                budget == whole - tried * 80000 || (budget == 0 && whole - tried * 80000 <= 0),
                tried <= was.rates.spawn_tries(was.width),
                self@.width == was.width,
                self@.height == was.height,
                self@.rates == was.rates,
                was.drops.len() <= self@.drops.len(),
                self@.drops.take(was.drops.len() as int) == was.drops,
                was.newcomers(self@).len() <= tried,
                full || was.newcomers(self@).len() >= tried || was.newcomers(self@).len()
                    >= was.rates.sure_spawns(was.width),
                full ==> forall|column: int| !#[trigger] self@.open_at(column),
                forall|i: int|
                    0 <= i < was.newcomers(self@).len() ==> (#[trigger] was.newcomers(
                        self@,
                    )[i]).row == 0 && was.open_at(was.newcomers(self@)[i].column as int),
                forall|i: int, j: int|
                    0 <= i < j < was.newcomers(self@).len() ==> (#[trigger] was.newcomers(
                        self@,
                    )[i]).column != (#[trigger] was.newcomers(self@)[j]).column,
                forall|row: int, column: int|
                    was.within(row, column) ==> #[trigger] self@.cells[row][column] == if row == 0
                        && ScreenView::started_in(was.newcomers(self@), column) {
                        was.cells[row][column].kindled()
                    } else {
                        was.cells[row][column]
                    },
            decreases budget, if full { 0int } else { 1int },
        {
            let chance: u32 = if budget >= unit as u128 {
                unit
            } else {
                budget as u32
            };
            if ratio(&mut self.rng, chance, unit) {
                let open: Vec<usize> = self.open_columns();
                let ghost seen = self@;
                match pick_below(&mut self.rng, open.len()) {
                    Some(at) => {
                        let column: usize = open[at];
                        let ghost here = self@;
                        let ghost started = was.newcomers(here);
                        assert(here.open_at(column as int));
                        let done: bool = self.spawn_at(column);
                        proof {
                            let fresh = Drop { column, row: 0 };
                            let more = was.newcomers(self@);
                            assert(more =~= started.push(fresh));
                            assert(self@.drops.take(was.drops.len() as int) =~= was.drops);
                            assert(here.cells[0][column as int].brightness == INVISIBLE);
                            assert(!ScreenView::started_in(started, column as int));
                            assert(here.cells[0][column as int] == was.cells[0][column as int]);
                            assert forall|c: int|
                                ScreenView::started_in(more, c) == (ScreenView::started_in(
                                    started,
                                    c,
                                ) || c == column) by {
                                if ScreenView::started_in(started, c) {
                                    let j = choose|j: int|
                                        0 <= j < started.len() && (#[trigger] started[j]).column
                                            == c;
                                    assert(more[j] == started[j]);
                                }
                                if c == column {
                                    assert(more[started.len() as int] == fresh);
                                }
                                if ScreenView::started_in(more, c) {
                                    let j = choose|j: int|
                                        0 <= j < more.len() && (#[trigger] more[j]).column == c;
                                    if j < started.len() {
                                        assert(started[j] == more[j]);
                                    }
                                }
                            }
                            assert forall|i: int, j: int| 0 <= i < j < more.len() implies (
                            #[trigger] more[i]).column != (#[trigger] more[j]).column by {
                                if j == started.len() {
                                    assert(started[i] == more[i]);
                                } else {
                                    assert(started[i] == more[i]);
                                    assert(started[j] == more[j]);
                                }
                            }
                            assert forall|i: int| 0 <= i < more.len() implies (#[trigger] more[i]).row
                                == 0 && was.open_at(more[i].column as int) by {
                                if i < started.len() {
                                    assert(started[i] == more[i]);
                                }
                            }
                        }
                    },
                    None => {
                        full = true;
                        proof {
                            assert(self@ == seen);
                            assert forall|column: int| !#[trigger] self@.open_at(column) by {
                                if seen.open_at(column) {
                                    assert(open@.contains(column as usize));
                                }
                            }
                        }
                    },
                }
            }
            proof {
                tried = tried + 1;
            }
            budget = if budget >= unit as u128 {
                (budget - unit as u128) as u128
            } else {
                0
            };
        }
    }

    /// One tick of the animation on a terminal of `width` columns and
    /// `height` rows.
    ///
    /// If the size differs from the screen's, the screen is resized first;
    /// cells that stay in view keep their state. Then every cell ticks, then
    /// the drops light their cells and fall, drops outside the grid leaving
    /// the list, then new drops start in the top row.
    pub fn update(&mut self, width: usize, height: usize)
        requires
            old(self).wf(),
        ensures
            final(self).wf(),
            final(self)@.wf(),
            old(self)@.updated_to(final(self)@, width as nat, height as nat),
    {
        if width != self.width || height != self.height {
            self.resize(width, height);
        }
        let ghost resized = self@;
        self.mutate_screen();
        let ghost ticked = self@;
        self.advance_drops();
        self.spawn_drops();
        proof {
            assert(old(self)@.resized_to(resized, width as nat, height as nat));
            assert(resized.ticked_to(ticked));
            assert(ticked.drops_advanced().spawned_to(self@));
        }
    }

    /// The number of columns shown.
    pub fn width(&self) -> (width: usize)
        ensures
            width == self@.width,
    {
        self.width
    }

    /// The number of rows shown.
    pub fn height(&self) -> (height: usize)
        ensures
            height == self@.height,
    {
        self.height
    }

    /// The rates the screen runs at.
    pub fn rates(&self) -> (rates: Rates)
        ensures
            rates == self@.rates,
    {
        self.rates
    }

    /// The drops that are falling, oldest first.
    pub fn drops(&self) -> (drops: Vec<Drop>)
        ensures
            drops@ == self@.drops,
    {
        self.drops.clone()
    }

    /// The cell at `(row, column)`, if the grid has one there.
    pub fn cell(&self, row: usize, column: usize) -> (cell: Option<Cell>)
        requires
            self.wf(),
        ensures
            cell == if self@.within(row as int, column as int) {
                Some(self@.cells[row as int][column as int])
            } else {
                None
            },
    {
        if row < self.height && column < self.width {
            Some(self.grid[row][column])
        } else {
            None
        }
    }

    /// Puts `cell` at `(row, column)`. A position outside the grid or a cell
    /// that is not well formed is refused, and the screen is left as it was.
    pub fn set_cell(&mut self, row: usize, column: usize, cell: Cell) -> (done: bool)
        requires
            old(self).wf(),
        ensures
            final(self).wf(),
            done == (old(self)@.within(row as int, column as int) && cell.wf()),
            done ==> final(self)@ == (ScreenView {
                cells: old(self)@.cells.update(
                    row as int,
                    old(self)@.cells[row as int].update(column as int, cell),
                ),
                ..old(self)@
            }),
            !done ==> final(self)@ == old(self)@,
    {
        if row < self.height && column < self.width && cell.is_valid() {
            self.grid[row][column] = cell;
            assert(self@.cells =~~= old(self)@.cells.update(
                row as int,
                old(self)@.cells[row as int].update(column as int, cell),
            ));
            true
        } else {
            false
        }
    }

    /// Starts a drop at `(row, column)`, wherever that is: one outside the
    /// grid is dropped from the list by the next tick.
    pub fn add_drop(&mut self, column: usize, row: usize)
        requires
            old(self).wf(),
        ensures
            final(self).wf(),
            final(self)@ == (ScreenView {
                drops: old(self)@.drops.push(Drop { column, row }),
                ..old(self)@
            }),
    {
        self.drops.push(Drop { column, row });
    }
}

} // verus!
