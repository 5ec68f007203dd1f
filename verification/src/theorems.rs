//! What holds of every tick and every resize, whatever the draws give.
//!
//! Each statement is over the views of a screen before and after, and is
//! proved from the relations that `Screen::update` and `Screen::resize`
//! ensure.

use crate::cell::{Cell, BRIGHTEST, INVISIBLE};
use crate::rain::{headed, moved, mover, Drop, ScreenView};
use vstd::prelude::*;
use vstd::set_lib::{lemma_int_range, lemma_len_subset, set_int_range};

verus! {

impl ScreenView {
    /// The brightness that the cell at `(row, column)` brings into a tick:
    /// its own if the grid has it, and that of an unlit cell if the tick is
    /// about to bring it into view.
    pub open spec fn brightness_at(self, row: int, column: int) -> i8 {
        if self.within(row, column) {
            self.cells[row][column].brightness
        } else {
            INVISIBLE
        }
    }

    /// Whether a drop head is on `(row, column)` during the tick from this
    /// screen to `next`: a drop of this screen is there, or a drop of `next`
    /// has just started there.
    pub open spec fn lights(self, next: ScreenView, row: int, column: int) -> bool {
        self.under_head(row, column) || (row == 0 && next.under_head(0, column))
    }
}

/// The drops that a tick carries over all end up below the top row.
pub proof fn moved_drops_are_below_top(drops: Seq<Drop>, width: nat, height: nat, i: int)
    requires
        height <= usize::MAX,
        0 <= i < drops.filter_map(mover(width, height)).len(),
    ensures
        drops.filter_map(mover(width, height))[i].row >= 1,
        drops.filter_map(mover(width, height))[i].row <= height,
        drops.filter_map(mover(width, height))[i].column < width,
        exists|j: int|
            0 <= j < drops.len() && moved(width, height, #[trigger] drops[j]) == Some(
                drops.filter_map(mover(width, height))[i],
            ),
{
    let kept = drops.filter_map(mover(width, height));
    assert(kept.contains(kept[i]));
    drops.lemma_filter_map_contains(mover(width, height), kept[i]);
    let from = choose|from: Drop| #[trigger]
        drops.contains(from) && mover(width, height)(from) == Some(kept[i]);
    let j = choose|j: int| 0 <= j < drops.len() && drops[j] == from;
    assert(moved(width, height, drops[j]) == Some(kept[i]));
}

/// A tick leaves a well-formed screen well formed: in particular every
/// brightness stays between `INVISIBLE` and `BRIGHTEST`.
pub proof fn update_keeps_wf(before: ScreenView, after: ScreenView, width: nat, height: nat)
    requires
        before.wf(),
        width <= usize::MAX,
        height <= usize::MAX,
        before.updated_to(after, width, height),
    ensures
        after.wf(),
        forall|row: int, column: int|
            after.within(row, column) ==> INVISIBLE <= (
            #[trigger] after.cells[row][column]).brightness <= BRIGHTEST,
{
    let (resized, ticked) = choose|resized: ScreenView, ticked: ScreenView|
        {
            &&& before.resized_to(resized, width, height)
            &&& #[trigger] resized.ticked_to(ticked)
            &&& ticked.drops_advanced().spawned_to(after)
        };
    let moved_on = ticked.drops_advanced();
    assert forall|row: int, column: int| after.within(row, column) implies (
    #[trigger] after.cells[row][column]).wf() by {
        let first = resized.cells[row][column];
        if before.within(row, column) {
            assert(before.cells[row][column].wf());
        }
        assert(first.wf());
        first.tick_keeps_wf(ticked.cells[row][column], resized.rates);
        assert(moved_on.cells[row][column] == ticked.cell_after_drops(row, column));
    }
}

/// What decides the brightness of a cell after a tick: under a drop head it
/// is `BRIGHTEST`; anywhere else it is what the cell's own dimming makes of
/// the brightness it had, with no draw in it.
pub proof fn brightness_after_update(
    before: ScreenView,
    after: ScreenView,
    width: nat,
    height: nat,
    row: int,
    column: int,
)
    requires
        before.wf(),
        width <= usize::MAX,
        height <= usize::MAX,
        before.updated_to(after, width, height),
        after.within(row, column),
    ensures
        before.lights(after, row, column) ==> after.cells[row][column].brightness == BRIGHTEST,
        !before.lights(after, row, column) && before.within(row, column)
            ==> after.cells[row][column].brightness == before.cells[row][column].dimmed(),
        !before.lights(after, row, column) && !before.within(row, column)
            ==> after.cells[row][column].brightness == INVISIBLE,
{
    let (resized, ticked) = choose|resized: ScreenView, ticked: ScreenView|
        {
            &&& before.resized_to(resized, width, height)
            &&& #[trigger] resized.ticked_to(ticked)
            &&& ticked.drops_advanced().spawned_to(after)
        };
    let moved_on = ticked.drops_advanced();
    let started = moved_on.newcomers(after);
    let kept = moved_on.drops;
    assert(moved_on.cells[row][column] == ticked.cell_after_drops(row, column));
    assert(resized.cells[row][column].may_become(ticked.cells[row][column], resized.rates));
    assert(ticked.under_head(row, column) == before.under_head(row, column));
    if row == 0 {
        if ScreenView::started_in(started, column) {
            let i = choose|i: int| 0 <= i < started.len() && (#[trigger] started[i]).column == column;
            assert(after.drops[kept.len() + i] == started[i]);
            assert(after.under_head(0, column));
        }
        if after.under_head(0, column) {
            let i = choose|i: int|
                0 <= i < after.drops.len() && (#[trigger] after.drops[i]).row == 0
                    && after.drops[i].column == column;
            if i < kept.len() {
                assert(after.drops.take(kept.len() as int)[i] == after.drops[i]);
                moved_drops_are_below_top(ticked.drops, ticked.width, ticked.height, i);
            } else {
                assert(started[i - kept.len()] == after.drops[i]);
                assert(ScreenView::started_in(started, column));
            }
        }
    }
}

/// An unlit cell stays unlit through a tick unless a drop head is on it, and
/// then it is exactly `BRIGHTEST`.
pub proof fn unlit_until_a_drop_comes(
    before: ScreenView,
    after: ScreenView,
    width: nat,
    height: nat,
    row: int,
    column: int,
)
    requires
        before.wf(),
        width <= usize::MAX,
        height <= usize::MAX,
        before.updated_to(after, width, height),
        after.within(row, column),
        before.brightness_at(row, column) == INVISIBLE,
    ensures
        after.cells[row][column].brightness == if before.lights(after, row, column) {
            BRIGHTEST
        } else {
            INVISIBLE
        },
{
    brightness_after_update(before, after, width, height, row, column);
}

/// A resize that takes no row and no column away keeps every cell as it
/// was, at its position, and the cells that it adds are unlit.
pub proof fn growing_keeps_cells(before: ScreenView, after: ScreenView, width: nat, height: nat)
    requires
        before.shaped(),
        before.resized_to(after, width, height),
        before.width <= width,
        before.height <= height,
    ensures
        forall|row: int, column: int|
            before.within(row, column) ==> after.within(row, column) && (
            #[trigger] after.cells[row][column]) == before.cells[row][column],
        forall|row: int, column: int|
            after.within(row, column) && !before.within(row, column) ==> (
            #[trigger] after.cells[row][column]).brightness == INVISIBLE,
{
}

/// A resize that adds no row and no column keeps every cell that is left as
/// it was, at its position.
pub proof fn shrinking_keeps_cells(before: ScreenView, after: ScreenView, width: nat, height: nat)
    requires
        before.shaped(),
        before.resized_to(after, width, height),
        width <= before.width,
        height <= before.height,
    ensures
        forall|row: int, column: int|
            after.within(row, column) ==> before.within(row, column) && (
            #[trigger] after.cells[row][column]) == before.cells[row][column],
        after.drops == before.drops,
{
}

/// A resize to the size that the screen has changes nothing.
pub proof fn resize_to_same_size(before: ScreenView, after: ScreenView)
    requires
        before.shaped(),
        before.resized_to(after, before.width, before.height),
    ensures
        after == before,
{
    assert forall|row: int| 0 <= row < before.height implies #[trigger] after.cells[row]
        == before.cells[row] by {
        assert forall|column: int| 0 <= column < before.width implies after.cells[row][column]
            == before.cells[row][column] by {
            assert(after.within(row, column));
        }
        assert(after.cells[row] =~= before.cells[row]);
    }
    assert(after.cells =~= before.cells);
}

/// The drops after a tick at `width` columns and `height` rows: first the
/// drops from before that were inside that size, each one row further down
/// and in their order, then the drops that have just started, all in the top
/// row. A drop that was outside the size has left no trace.
pub proof fn drops_after_update(before: ScreenView, after: ScreenView, width: nat, height: nat) -> (kept:
    Seq<Drop>)
    requires
        before.wf(),
        width <= usize::MAX,
        height <= usize::MAX,
        before.updated_to(after, width, height),
    ensures
        kept == before.drops.filter_map(mover(width, height)),
        kept.len() <= after.drops.len(),
        after.drops.take(kept.len() as int) == kept,
        forall|i: int|
            0 <= i < kept.len() ==> (#[trigger] after.drops[i]).row >= 1 && exists|j: int|
                0 <= j < before.drops.len() && moved(width, height, #[trigger] before.drops[j])
                    == Some(after.drops[i]),
        forall|i: int|
            kept.len() <= i < after.drops.len() ==> (#[trigger] after.drops[i]).row == 0
                && after.drops[i].column < width,
        forall|i: int, j: int|
            kept.len() <= i < j < after.drops.len() ==> (#[trigger] after.drops[i]).column != (
            #[trigger] after.drops[j]).column,
{
    let (resized, ticked) = choose|resized: ScreenView, ticked: ScreenView|
        {
            &&& before.resized_to(resized, width, height)
            &&& #[trigger] resized.ticked_to(ticked)
            &&& ticked.drops_advanced().spawned_to(after)
        };
    let moved_on = ticked.drops_advanced();
    let started = moved_on.newcomers(after);
    let kept = moved_on.drops;
    assert forall|i: int| 0 <= i < kept.len() implies (#[trigger] after.drops[i]).row >= 1
        && exists|j: int|
        0 <= j < before.drops.len() && moved(width, height, #[trigger] before.drops[j]) == Some(
            after.drops[i],
        ) by {
        assert(after.drops.take(kept.len() as int)[i] == after.drops[i]);
        moved_drops_are_below_top(before.drops, width, height, i);
    }
    assert forall|i: int| kept.len() <= i < after.drops.len() implies (
    #[trigger] after.drops[i]).row == 0 && after.drops[i].column < width by {
        assert(started[i - kept.len()] == after.drops[i]);
    }
    assert forall|i: int, j: int| kept.len() <= i < j < after.drops.len() implies (
    #[trigger] after.drops[i]).column != (#[trigger] after.drops[j]).column by {
        assert(started[i - kept.len()] == after.drops[i]);
        assert(started[j - kept.len()] == after.drops[j]);
    }
    kept
}

/// A tick at the size that the screen has replaces no cell: where no drop
/// head is, the cell after the tick is the cell before, one tick older.
/// Where the rates let no glyph change it keeps its glyph, and if it is
/// unlit and its flip countdown has run out it is the same in every field.
pub proof fn update_at_same_size(before: ScreenView, after: ScreenView, row: int, column: int)
    requires
        before.wf(),
        before.updated_to(after, before.width, before.height),
        before.within(row, column),
        !before.lights(after, row, column),
    ensures
        before.cells[row][column].may_become(after.cells[row][column], before.rates),
        !before.rates.mutates() ==> after.cells[row][column].glyph == before.cells[row][column].glyph,
        !before.rates.mutates() && before.cells[row][column].brightness == INVISIBLE
            && before.cells[row][column].flip_timer == 0 ==> after.cells[row][column]
            == before.cells[row][column],
{
    let width = before.width;
    let height = before.height;
    let (resized, ticked) = choose|resized: ScreenView, ticked: ScreenView|
        {
            &&& before.resized_to(resized, width, height)
            &&& #[trigger] resized.ticked_to(ticked)
            &&& ticked.drops_advanced().spawned_to(after)
        };
    resize_to_same_size(before, resized);
    brightness_after_update(before, after, width, height, row, column);
    let moved_on = ticked.drops_advanced();
    let started = moved_on.newcomers(after);
    let kept = moved_on.drops;
    assert(moved_on.cells[row][column] == ticked.cell_after_drops(row, column));
    assert(ticked.under_head(row, column) == before.under_head(row, column));
    if row == 0 && ScreenView::started_in(started, column) {
        let i = choose|i: int| 0 <= i < started.len() && (#[trigger] started[i]).column == column;
        assert(after.drops[kept.len() + i] == started[i]);
        assert(after.under_head(0, column));
    }
    assert(after.cells[row][column] == ticked.cells[row][column]);
    if !before.rates.mutates() {
        before.cells[row][column].tick_at_rest(after.cells[row][column], before.rates);
    }
}

/// Drops in pairwise distinct columns of a grid are no more than the grid
/// has columns.
pub proof fn distinct_columns_fit(drops: Seq<Drop>, width: nat)
    requires
        forall|i: int| 0 <= i < drops.len() ==> (#[trigger] drops[i]).column < width,
        forall|i: int, j: int|
            0 <= i < j < drops.len() ==> (#[trigger] drops[i]).column != (#[trigger] drops[j]).column,
    ensures
        drops.len() <= width,
{
    let columns = drops.map_values(|drop: Drop| drop.column as int);
    assert forall|i: int, j: int| 0 <= i < columns.len() && 0 <= j < columns.len() && i != j implies columns[i]
        != columns[j] by {
        if i < j {
            assert(drops[i].column != drops[j].column);
        } else {
            assert(drops[j].column != drops[i].column);
        }
    }
    columns.unique_seq_to_set();
    lemma_int_range(0, width as int);
    assert forall|column: int| columns.to_set().contains(column) implies set_int_range(
        0,
        width as int,
    ).contains(column) by {
        let i = choose|i: int| 0 <= i < columns.len() && columns[i] == column;
        assert(drops[i].column < width);
    }
    lemma_len_subset(columns.to_set(), set_int_range(0, width as int));
}

/// Whether `drops` are in pairwise distinct columns.
pub open spec fn in_distinct_columns(drops: Seq<Drop>) -> bool {
    forall|i: int, j: int|
        0 <= i < j < drops.len() ==> (#[trigger] drops[i]).column != (#[trigger] drops[j]).column
}

/// Drops in distinct columns are still in distinct columns after they have
/// moved on.
pub proof fn moved_drops_keep_columns(drops: Seq<Drop>, width: nat, height: nat)
    requires
        in_distinct_columns(drops),
    ensures
        in_distinct_columns(drops.filter_map(mover(width, height))),
        forall|i: int|
            0 <= i < drops.filter_map(mover(width, height)).len() ==> exists|j: int|
                0 <= j < drops.len() && (#[trigger] drops[j]).column == (
                #[trigger] drops.filter_map(mover(width, height))[i]).column,
    decreases drops.len(),
{
    let kept = drops.filter_map(mover(width, height));
    if drops.len() > 0 {
        let rest = drops.drop_last();
        let last = drops.last();
        let before = rest.filter_map(mover(width, height));
        assert forall|i: int, j: int| 0 <= i < j < rest.len() implies (#[trigger] rest[i]).column != (
        #[trigger] rest[j]).column by {
            assert(drops[i].column != drops[j].column);
        }
        moved_drops_keep_columns(rest, width, height);
        assert forall|i: int| 0 <= i < kept.len() implies exists|j: int|
            0 <= j < drops.len() && (#[trigger] drops[j]).column == (#[trigger] kept[i]).column by {
            if i < before.len() {
                assert(kept[i] == before[i]);
                let j = choose|j: int|
                    0 <= j < rest.len() && (#[trigger] rest[j]).column == before[i].column;
                assert(drops[j] == rest[j]);
            } else {
                assert(kept[i] == last.fallen());
                assert(drops[drops.len() - 1] == last);
            }
        }
        assert forall|i: int, j: int| 0 <= i < j < kept.len() implies (#[trigger] kept[i]).column != (
        #[trigger] kept[j]).column by {
            assert(kept[i] == before[i]);
            if j < before.len() {
                assert(kept[j] == before[j]);
            } else {
                assert(kept[j] == last.fallen());
                let from = choose|from: int|
                    0 <= from < rest.len() && (#[trigger] rest[from]).column == before[i].column;
                assert(drops[from] == rest[from]);
                assert(drops[from].column != drops[drops.len() - 1].column);
            }
        }
    }
}

/// After a tick, the drops in the top row are in pairwise distinct columns,
/// each on a cell that is `BRIGHTEST`: no drop starts in a column whose top
/// cell is drawn. So the top row never holds more drops than the grid has
/// columns.
pub proof fn top_row_holds_one_drop_per_column(
    before: ScreenView,
    after: ScreenView,
    width: nat,
    height: nat,
) -> (top: Seq<Drop>)
    requires
        before.wf(),
        width <= usize::MAX,
        height <= usize::MAX,
        before.updated_to(after, width, height),
    ensures
        forall|i: int|
            0 <= i < after.drops.len() ==> ((#[trigger] after.drops[i]).row == 0 <==> top.contains(
                after.drops[i],
            )),
        forall|i: int|
            0 <= i < top.len() ==> (#[trigger] top[i]).row == 0 && after.within(
                0,
                top[i].column as int,
            ) && after.cells[0][top[i].column as int].brightness == BRIGHTEST,
        in_distinct_columns(top),
        top.len() <= width,
{
    let kept = drops_after_update(before, after, width, height);
    let (resized, ticked) = choose|resized: ScreenView, ticked: ScreenView|
        {
            &&& before.resized_to(resized, width, height)
            &&& #[trigger] resized.ticked_to(ticked)
            &&& ticked.drops_advanced().spawned_to(after)
        };
    let moved_on = ticked.drops_advanced();
    let top = moved_on.newcomers(after);
    assert forall|i: int| 0 <= i < after.drops.len() implies ((#[trigger] after.drops[i]).row == 0
        <==> top.contains(after.drops[i])) by {
        if kept.len() <= i {
            assert(top[i - kept.len()] == after.drops[i]);
        }
        if top.contains(after.drops[i]) {
            let at = choose|at: int| 0 <= at < top.len() && top[at] == after.drops[i];
            assert(top[at].row == 0);
        }
    }
    assert forall|i: int| 0 <= i < top.len() implies (#[trigger] top[i]).row == 0 && after.within(
        0,
        top[i].column as int,
    ) && after.cells[0][top[i].column as int].brightness == BRIGHTEST by {
        assert(moved_on.open_at(top[i].column as int));
        assert(ScreenView::started_in(top, top[i].column as int));
    }
    distinct_columns_fit(top, width);
    top
}

/// The least that the top cell of a column can show while a drop that
/// started there is at `row`: the drop lit it when it left the top row, and
/// a cell loses at most one level in a tick.
pub open spec fn afterglow(row: int) -> int {
    if row == 0 {
        BRIGHTEST as int
    } else {
        BRIGHTEST + 1 - row
    }
}

impl ScreenView {
    /// Every drop is in a column of the grid and has it to itself, and the
    /// top cell of that column still shows the `afterglow` of the drop.
    pub open spec fn single_file(self) -> bool {
        &&& in_distinct_columns(self.drops)
        &&& forall|i: int|
            0 <= i < self.drops.len() ==> self.within(0, (#[trigger] self.drops[i]).column as int)
                && self.cells[0][self.drops[i].column as int].brightness >= afterglow(
                self.drops[i].row as int,
            )
    }
}

/// A screen whose drops go in single file has no more drops than columns.
pub proof fn single_file_bounds_drops(screen: ScreenView)
    requires
        screen.single_file(),
    ensures
        screen.drops.len() <= screen.width,
{
    distinct_columns_fit(screen.drops, screen.width);
}

/// A screen without drops has them in single file.
pub proof fn no_drops_go_in_single_file(screen: ScreenView)
    requires
        screen.drops.len() == 0,
    ensures
        screen.single_file(),
{
}

/// On a grid of at most `BRIGHTEST + 1` rows, a tick keeps the drops in
/// single file: a drop has left the grid before the top cell of its column
/// has gone dark, so no second drop starts above it. The number of drops
/// then never exceeds the number of columns.
///
/// A taller grid can hold a column's next drop while the last one is still
/// falling.
pub proof fn update_keeps_single_file(before: ScreenView, after: ScreenView, width: nat, height: nat)
    requires
        before.wf(),
        before.single_file(),
        width <= usize::MAX,
        height <= BRIGHTEST + 1,
        before.updated_to(after, width, height),
    ensures
        after.single_file(),
        after.drops.len() <= after.width,
{
    let kept = drops_after_update(before, after, width, height);
    let (resized, ticked) = choose|resized: ScreenView, ticked: ScreenView|
        {
            &&& before.resized_to(resized, width, height)
            &&& #[trigger] resized.ticked_to(ticked)
            &&& ticked.drops_advanced().spawned_to(after)
        };
    let moved_on = ticked.drops_advanced();
    let started = moved_on.newcomers(after);
    moved_drops_keep_columns(before.drops, width, height);
    // A drop that was carried over still has a drawn cell at the top of its
    // column, with the afterglow of its new row.
    assert forall|i: int| 0 <= i < kept.len() implies after.within(
        0,
        (#[trigger] after.drops[i]).column as int,
    ) && after.cells[0][after.drops[i].column as int].brightness >= afterglow(
        after.drops[i].row as int,
    ) && moved_on.cells[0][after.drops[i].column as int].brightness >= 0 by {
        assert(after.drops.take(kept.len() as int)[i] == after.drops[i]);
        let j = choose|j: int|
            0 <= j < before.drops.len() && moved(width, height, #[trigger] before.drops[j]) == Some(
                after.drops[i],
            );
        let from = before.drops[j];
        let column = from.column as int;
        assert(before.within(0, column));
        assert(resized.within(0, column));
        assert(resized.cells[0][column] == before.cells[0][column]);
        assert(before.cells[0][column].wf());
        assert(resized.cells[0][column].may_become(ticked.cells[0][column], resized.rates));
        assert(moved_on.cells[0][column] == ticked.cell_after_drops(0, column));
        if from.row == 0 {
            assert(ticked.drops[j] == from);
            assert(ticked.under_head(0, column));
        }
        assert(moved_on.cells[0][column].brightness >= afterglow(from.row + 1));
        assert(!moved_on.open_at(column));
        if ScreenView::started_in(started, column) {
            let at = choose|at: int| 0 <= at < started.len() && (#[trigger] started[at]).column == column;
            assert(moved_on.open_at(started[at].column as int));
        }
        assert(after.cells[0][column] == moved_on.cells[0][column]);
    }
    assert forall|i: int| kept.len() <= i < after.drops.len() implies after.within(
        0,
        (#[trigger] after.drops[i]).column as int,
    ) && after.cells[0][after.drops[i].column as int].brightness >= afterglow(
        after.drops[i].row as int,
    ) && moved_on.open_at(after.drops[i].column as int) by {
        let at = i - kept.len();
        assert(started[at] == after.drops[i]);
        assert(moved_on.open_at(started[at].column as int));
        assert(ScreenView::started_in(started, started[at].column as int));
    }
    assert forall|i: int, j: int| 0 <= i < j < after.drops.len() implies (
    #[trigger] after.drops[i]).column != (#[trigger] after.drops[j]).column by {
        if j < kept.len() {
            assert(after.drops.take(kept.len() as int)[i] == after.drops[i]);
            assert(after.drops.take(kept.len() as int)[j] == after.drops[j]);
            assert(kept[i].column != kept[j].column);
        } else if i < kept.len() {
            assert(moved_on.cells[0][after.drops[i].column as int].brightness >= 0);
            assert(moved_on.open_at(after.drops[j].column as int));
        }
    }
    single_file_bounds_drops(after);
}

} // verus!
