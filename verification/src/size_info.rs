//! Terminal size bookkeeping: window metrics and the grid that fits in them.

use vstd::prelude::*;

verus! {

/// Minimum number of columns of the terminal grid.
pub const MIN_COLUMNS: usize = 2;

/// Minimum number of visible lines of the terminal grid.
pub const MIN_SCREEN_LINES: usize = 1;

/// Mathematical model of a [`SizeInfo`].
pub struct SizeInfoModel<T> {
    pub width: T,
    pub height: T,
    pub cell_width: T,
    pub cell_height: T,
    pub padding_x: T,
    pub padding_y: T,
    pub screen_lines: nat,
    pub columns: nat,
}

/// Terminal size info.
///
/// The metric type `T` is `f32` for window pixels; the grid dimensions are
/// always whole numbers of cells.
#[derive(Debug, Copy, Clone)]
pub struct SizeInfo<T> {
    /// Terminal window width.
    width: T,
    /// Terminal window height.
    height: T,
    /// Width of individual cell.
    cell_width: T,
    /// Height of individual cell.
    cell_height: T,
    /// Horizontal window padding.
    padding_x: T,
    /// Vertical window padding.
    padding_y: T,
    /// Number of lines in the viewport.
    screen_lines: usize,
    /// Number of columns in the viewport.
    columns: usize,
}

impl<T> View for SizeInfo<T> {
    type V = SizeInfoModel<T>;

    closed spec fn view(&self) -> SizeInfoModel<T> {
        SizeInfoModel {
            width: self.width,
            height: self.height,
            cell_width: self.cell_width,
            cell_height: self.cell_height,
            padding_x: self.padding_x,
            padding_y: self.padding_y,
            screen_lines: self.screen_lines as nat,
            columns: self.columns as nat,
        }
    }
}

/// The number of lines left after reserving `count` of `lines` for other
/// content: never fewer than [`MIN_SCREEN_LINES`].
pub open spec fn lines_after_reserve(lines: nat, count: nat) -> nat {
    let left = if lines >= count { (lines - count) as nat } else { 0nat };
    if left >= MIN_SCREEN_LINES { left } else { MIN_SCREEN_LINES as nat }
}

impl<T: Copy> SizeInfo<T> {
    /// Builds a size from all of its parts, as given.
    pub fn from_parts(
        width: T,
        height: T,
        cell_width: T,
        cell_height: T,
        padding_x: T,
        padding_y: T,
        screen_lines: usize,
        columns: usize,
    ) -> (r: Self)
        ensures
            r@ == (SizeInfoModel {
                width,
                height,
                cell_width,
                cell_height,
                padding_x,
                padding_y,
                screen_lines: screen_lines as nat,
                columns: columns as nat,
            }),
    {
        SizeInfo { width, height, cell_width, cell_height, padding_x, padding_y, screen_lines, columns }
    }

    /// Builds a size from window metrics and the number of whole lines and
    /// columns that fit between the paddings; the grid never gets smaller
    /// than [`MIN_SCREEN_LINES`] by [`MIN_COLUMNS`].
    pub fn from_fitted(
        width: T,
        height: T,
        cell_width: T,
        cell_height: T,
        padding_x: T,
        padding_y: T,
        fitted_lines: usize,
        fitted_columns: usize,
    ) -> (r: Self)
        ensures
            r@.width == width,
            r@.height == height,
            r@.cell_width == cell_width,
            r@.cell_height == cell_height,
            r@.padding_x == padding_x,
            r@.padding_y == padding_y,
            r@.screen_lines == (if fitted_lines >= MIN_SCREEN_LINES {
                fitted_lines
            } else {
                MIN_SCREEN_LINES
            }),
            r@.columns == (if fitted_columns >= MIN_COLUMNS {
                fitted_columns
            } else {
                MIN_COLUMNS
            }),
    {
        let screen_lines = if fitted_lines >= MIN_SCREEN_LINES {
            fitted_lines
        } else {
            MIN_SCREEN_LINES
        };
        let columns = if fitted_columns >= MIN_COLUMNS {
            fitted_columns
        } else {
            MIN_COLUMNS
        };
        SizeInfo { width, height, cell_width, cell_height, padding_x, padding_y, screen_lines, columns }
    }

    #[inline]
    pub fn width(&self) -> (r: T)
        ensures
            r == self@.width,
    {
        self.width
    }

    #[inline]
    pub fn height(&self) -> (r: T)
        ensures
            r == self@.height,
    {
        self.height
    }

    #[inline]
    pub fn cell_width(&self) -> (r: T)
        ensures
            r == self@.cell_width,
    {
        self.cell_width
    }

    #[inline]
    pub fn cell_height(&self) -> (r: T)
        ensures
            r == self@.cell_height,
    {
        self.cell_height
    }

    #[inline]
    pub fn padding_x(&self) -> (r: T)
        ensures
            r == self@.padding_x,
    {
        self.padding_x
    }

    #[inline]
    pub fn padding_y(&self) -> (r: T)
        ensures
            r == self@.padding_y,
    {
        self.padding_y
    }

    /// Number of columns in the viewport.
    #[inline]
    pub fn columns(&self) -> (r: usize)
        ensures
            r == self@.columns,
    {
        self.columns
    }

    /// Number of lines in the viewport.
    #[inline]
    pub fn screen_lines(&self) -> (r: usize)
        ensures
            r == self@.screen_lines,
    {
        self.screen_lines
    }

    /// Total number of lines: the viewport holds no history.
    #[inline]
    pub fn total_lines(&self) -> (r: usize)
        ensures
            r == self@.screen_lines,
    {
        self.screen_lines()
    }

    /// Reserve `count` lines of the viewport for other content (message bar,
    /// search bar), keeping at least [`MIN_SCREEN_LINES`] for the grid.
    #[inline]
    pub fn reserve_lines(&mut self, count: usize)
        ensures
            final(self)@ == (SizeInfoModel {
                screen_lines: lines_after_reserve(old(self)@.screen_lines, count as nat),
                ..old(self)@
            }),
    {
        let left = self.screen_lines.saturating_sub(count);
        self.screen_lines = if left >= MIN_SCREEN_LINES { left } else { MIN_SCREEN_LINES };
    }
}

/// Reserving lines never leaves the grid with fewer than [`MIN_SCREEN_LINES`]
/// lines, and never adds lines beyond the ones there were (or the minimum).
pub proof fn lemma_reserve_keeps_minimum(lines: nat, count: nat)
    ensures
        lines_after_reserve(lines, count) >= MIN_SCREEN_LINES,
        lines_after_reserve(lines, count) <= if lines >= MIN_SCREEN_LINES {
            lines
        } else {
            MIN_SCREEN_LINES as nat
        },
{
}

/// Reserving `a` lines and then `b` more is the same as reserving `a + b`
/// lines at once.
pub proof fn lemma_reserve_composes(lines: nat, a: nat, b: nat)
    ensures
        lines_after_reserve(lines_after_reserve(lines, a), b) == lines_after_reserve(lines, a + b),
{
}

} // verus!
