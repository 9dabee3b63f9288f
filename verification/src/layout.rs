//! The geometry of the calendar image: where each year, month, day block,
//! summary line and legend row goes. All lengths are in pixels.

use vstd::prelude::*;

verus! {

/// Side of a day block.
pub const BLOCK_SIZE: u32 = 10;

/// Space between neighbouring day blocks.
pub const SPACE_SIZE: u32 = 2;

/// Vertical gap between two years.
pub const YEAR_GAP: u32 = 20;

/// Day blocks per row of a month's grid.
pub const GRID_COLUMNS: u32 = 4;

/// Rows of a month's grid.
pub const GRID_ROWS: u32 = 8;

/// Distance from one day block to the next.
pub const CELL: u32 = 12;

/// Height of the month labels above the grids.
pub const MONTH_LABEL_HEIGHT: u32 = 20;

/// Height of one year: its grids and the labels above them.
pub const YEAR_EXTENT: u32 = 116;

/// Distance from the top of one year to the top of the next.
pub const YEAR_STRIDE: u32 = 136;

/// Width of the column of year labels.
pub const YEAR_LABEL_WIDTH: u32 = 50;

/// Width of the summary column.
pub const SUMMARY_WIDTH: u32 = 450;

/// Extra space between the grids of two months.
pub const MONTH_SPACING: u32 = 6;

/// Distance from the left edge of one month to that of the next.
pub const MONTH_WIDTH: u32 = 54;

/// Padding at the right edge of the image.
pub const PADDING: u32 = 8;

/// Width of the image.
pub const IMAGE_WIDTH: u32 = 1156;

/// Left edge of the summary lines.
pub const SUMMARY_X: u32 = 702;

/// Left edge of the legend's squares.
pub const LEGEND_X: u32 = 902;

/// Left edge of the legend's texts.
pub const LEGEND_TEXT_X: u32 = 916;

/// Width kept free for a legend text.
pub const LEGEND_TEXT_WIDTH: u32 = 150;

/// Number of cells between the top of a year and its first legend row.
pub const LEGEND_FIRST_ROW: u32 = 7;

/// Number of summary lines.
pub const SUMMARY_LINES: u32 = 4;

/// Number of legend rows: one for each bucket but that of no commit.
pub const LEGEND_ROWS: u32 = 5;

/// Left edge of a year label.
pub const YEAR_LABEL_X: u32 = 5;

/// Text size of a year label.
pub const YEAR_TEXT_SIZE: u32 = 16;

/// Text size of a month label.
pub const MONTH_TEXT_SIZE: u32 = 12;

/// Text size of the summary lines and the legend texts.
pub const SMALL_TEXT_SIZE: u32 = 8;

/// How the lengths above follow from the block size, the space size and
/// the grid: a cell is a block and a space, a year is its grid rows under
/// the month labels, the image is as wide as the year labels, twelve months,
/// the summary column and the padding.
pub proof fn lemma_lengths()
    ensures
        CELL == BLOCK_SIZE + SPACE_SIZE,
        MONTH_LABEL_HEIGHT == BLOCK_SIZE * 2,
        YEAR_EXTENT == GRID_ROWS * CELL + MONTH_LABEL_HEIGHT,
        YEAR_STRIDE == YEAR_EXTENT + YEAR_GAP,
        YEAR_LABEL_WIDTH == BLOCK_SIZE * 5,
        SUMMARY_WIDTH == BLOCK_SIZE * 45,
        MONTH_SPACING == SPACE_SIZE * 3,
        MONTH_WIDTH == GRID_COLUMNS * CELL + MONTH_SPACING,
        PADDING == SPACE_SIZE * 4,
        IMAGE_WIDTH == YEAR_LABEL_WIDTH + 12 * MONTH_WIDTH + SUMMARY_WIDTH + PADDING,
        SUMMARY_X == IMAGE_WIDTH - SUMMARY_WIDTH - SPACE_SIZE * 2,
        LEGEND_X == SUMMARY_X + BLOCK_SIZE * 20,
        LEGEND_TEXT_X == LEGEND_X + BLOCK_SIZE + SPACE_SIZE * 2,
        LEGEND_TEXT_WIDTH == BLOCK_SIZE * 15,
        YEAR_TEXT_SIZE * 5 == BLOCK_SIZE * 8,
        MONTH_TEXT_SIZE * 5 == BLOCK_SIZE * 6,
        SMALL_TEXT_SIZE * 5 == BLOCK_SIZE * 4,
{
}

/// Height of an image of `years` years.
pub open spec fn spec_image_height(years: int) -> int {
    years * YEAR_STRIDE
}

/// Top of the year at `year_index`, counted from 0.
pub open spec fn spec_year_offset(year_index: int) -> int {
    year_index * YEAR_STRIDE
}

/// Top of a year label.
pub open spec fn spec_year_label_y(year_index: int) -> int {
    spec_year_offset(year_index) + YEAR_EXTENT / 2 - BLOCK_SIZE / 2
}

/// Left edge of a month, the months counted from 1.
pub open spec fn spec_month_x(month: int) -> int {
    YEAR_LABEL_WIDTH + (month - 1) * MONTH_WIDTH
}

/// Column of a day in its month's grid, the days counted from 1.
pub open spec fn spec_day_column(day: int) -> int {
    (day - 1) % (GRID_COLUMNS as int)
}

/// Row of a day in its month's grid, the days counted from 1.
pub open spec fn spec_day_row(day: int) -> int {
    (day - 1) / (GRID_COLUMNS as int)
}

/// Left edge of a day block.
pub open spec fn spec_day_x(month: int, day: int) -> int {
    spec_month_x(month) + spec_day_column(day) * CELL
}

/// Top of a day block.
pub open spec fn spec_day_y(year_index: int, day: int) -> int {
    spec_year_offset(year_index) + MONTH_LABEL_HEIGHT + spec_day_row(day) * CELL
}

/// Height of the separator line above a year that is not the first.
pub open spec fn spec_separator_y(year_index: int) -> int {
    spec_year_offset(year_index) - YEAR_GAP / 2
}

/// Top of a summary line, the lines counted from 0.
pub open spec fn spec_summary_line_y(year_index: int, line: int) -> int {
    spec_year_offset(year_index) + BLOCK_SIZE + line * CELL
}

/// Top of a legend row, the rows counted from 0.
pub open spec fn spec_legend_row_y(year_index: int, row: int) -> int {
    spec_year_offset(year_index) + (row + LEGEND_FIRST_ROW) * CELL
}

/// Whether a legend row has room in an image of `years` years: its square
/// and its text must both lie within the image.
pub open spec fn spec_legend_row_fits(years: int, year_index: int, row: int) -> bool {
    &&& LEGEND_X + BLOCK_SIZE <= IMAGE_WIDTH
    &&& spec_legend_row_y(year_index, row) + BLOCK_SIZE <= spec_image_height(years)
    &&& LEGEND_TEXT_X + LEGEND_TEXT_WIDTH <= IMAGE_WIDTH
}

/// Height of an image of `years` years.
pub fn image_height(years: u32) -> (height: u32)
    requires
        spec_image_height(years as int) <= u32::MAX,
    ensures
        height == spec_image_height(years as int),
{
    years * YEAR_STRIDE
}

/// Top of the year at `year_index`.
pub fn year_offset(year_index: u32) -> (y: u32)
    requires
        spec_image_height(year_index + 1) <= u32::MAX,
    ensures
        y == spec_year_offset(year_index as int),
{
    year_index * YEAR_STRIDE
}

/// Top of the label of the year at `year_index`.
pub fn year_label_y(year_index: u32) -> (y: u32)
    requires
        spec_image_height(year_index + 1) <= u32::MAX,
    ensures
        y == spec_year_label_y(year_index as int),
{
    year_offset(year_index) + YEAR_EXTENT / 2 - BLOCK_SIZE / 2
}

/// Left edge of a month.
pub fn month_x(month: u32) -> (x: u32)
    requires
        1 <= month <= 12,
    ensures
        x == spec_month_x(month as int),
{
    YEAR_LABEL_WIDTH + (month - 1) * MONTH_WIDTH
}

/// Left edge of the block of a day.
pub fn day_x(month: u32, day: u32) -> (x: u32)
    requires
        1 <= month <= 12,
        1 <= day <= GRID_COLUMNS * GRID_ROWS,
    ensures
        x == spec_day_x(month as int, day as int),
        x + BLOCK_SIZE <= IMAGE_WIDTH,
{
    month_x(month) + ((day - 1) % GRID_COLUMNS) * CELL
}

/// Top of the block of a day.
pub fn day_y(year_index: u32, day: u32) -> (y: u32)
    requires
        spec_image_height(year_index + 1) <= u32::MAX,
        1 <= day <= GRID_COLUMNS * GRID_ROWS,
    ensures
        y == spec_day_y(year_index as int, day as int),
        y + BLOCK_SIZE <= spec_image_height(year_index + 1),
{
    year_offset(year_index) + MONTH_LABEL_HEIGHT + ((day - 1) / GRID_COLUMNS) * CELL
}

/// Height of the separator line above the year at `year_index`.
pub fn separator_y(year_index: u32) -> (y: u32)
    requires
        year_index >= 1,
        spec_image_height(year_index + 1) <= u32::MAX,
    ensures
        y == spec_separator_y(year_index as int),
        y < spec_image_height(year_index as int),
{
    year_offset(year_index) - YEAR_GAP / 2
}

/// Top of a summary line.
pub fn summary_line_y(year_index: u32, line: u32) -> (y: u32)
    requires
        spec_image_height(year_index + 1) <= u32::MAX,
        line < SUMMARY_LINES,
    ensures
        y == spec_summary_line_y(year_index as int, line as int),
{
    year_offset(year_index) + BLOCK_SIZE + line * CELL
}

/// Top of a legend row.
pub fn legend_row_y(year_index: u32, row: u32) -> (y: u32)
    requires
        spec_image_height(year_index + 1) <= u32::MAX,
        row < LEGEND_ROWS,
    ensures
        y == spec_legend_row_y(year_index as int, row as int),
{
    year_offset(year_index) + (row + LEGEND_FIRST_ROW) * CELL
}

/// Whether a legend row has room in an image of `years` years.
pub fn legend_row_fits(years: u32, year_index: u32, row: u32) -> (fits: bool)
    requires
        year_index < years,
        spec_image_height(years as int) <= u32::MAX,
        row < LEGEND_ROWS,
    ensures
        fits == spec_legend_row_fits(years as int, year_index as int, row as int),
{
    LEGEND_X + BLOCK_SIZE <= IMAGE_WIDTH && legend_row_y(year_index, row) as u64 + BLOCK_SIZE as u64
        <= image_height(years) as u64 && LEGEND_TEXT_X + LEGEND_TEXT_WIDTH <= IMAGE_WIDTH
}

} // verus!
