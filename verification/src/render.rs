//! The renderer: the drawing operations of the calendar image, in the
//! order in which they are drawn.

use crate::calendar::{days_in_month, spec_days_in_month, Date};
use crate::index::count_at;
use crate::labels::{
    legend_text, month_label, numbered, spec_legend_text, spec_month_label, spec_summary_text,
    summary_suffix, year_label,
};
use crate::layout::{
    day_x, day_y, image_height, legend_row_fits, legend_row_y, month_x, separator_y,
    spec_day_x, spec_day_y, spec_image_height, spec_legend_row_fits, spec_legend_row_y,
    spec_month_x, spec_separator_y, spec_summary_line_y, spec_year_label_y, spec_year_offset,
    summary_line_y, year_label_y, year_offset, BLOCK_SIZE, IMAGE_WIDTH, LEGEND_ROWS,
    LEGEND_TEXT_X, LEGEND_X, MONTH_TEXT_SIZE, SMALL_TEXT_SIZE, SUMMARY_LINES, SUMMARY_X,
    YEAR_LABEL_X, YEAR_TEXT_SIZE,
};
use crate::stats::DayTotals;
use crate::summary::{day_of, figures_of, History, YearFigures, YearSummary};
use crate::text::signed_decimal_digits;
use crate::theme::{Color, Theme};
use vstd::prelude::*;

verus! {

/// A drawing operation, as mathematics sees it.
pub enum DrawCmd {
    /// Fill the rectangle with the colour.
    Fill { x: int, y: int, width: int, height: int, color: Color },
    /// Draw the text, its top left corner at the point.
    Text { x: int, y: int, text: Seq<char>, size: int, color: Color },
}

/// A drawing operation.
#[derive(Debug, PartialEq, Eq)]
pub enum DrawOp {
    /// Fill the rectangle with the colour.
    Fill { x: u32, y: u32, width: u32, height: u32, color: Color },
    /// Draw the text, its top left corner at the point.
    Text { x: u32, y: u32, text: String, size: u32, color: Color },
}

impl View for DrawOp {
    type V = DrawCmd;

    open spec fn view(&self) -> DrawCmd {
        match *self {
            DrawOp::Fill { x, y, width, height, color } => DrawCmd::Fill {
                x: x as int,
                y: y as int,
                width: width as int,
                height: height as int,
                color,
            },
            DrawOp::Text { x, y, text, size, color } => DrawCmd::Text {
                x: x as int,
                y: y as int,
                text: text@,
                size: size as int,
                color,
            },
        }
    }
}

/// The views of drawing operations, in order.
pub open spec fn ops_view(ops: Seq<DrawOp>) -> Seq<DrawCmd> {
    Seq::new(ops.len(), |i: int| ops[i]@)
}

/// An image to draw, as mathematics sees it.
pub struct FrameView {
    pub width: int,
    pub height: int,
    pub background: Color,
    pub ops: Seq<DrawCmd>,
}

/// An image to draw: its size, the colour it starts with, and the
/// operations to perform on it in order.
#[derive(Debug, PartialEq, Eq)]
pub struct Frame {
    pub width: u32,
    pub height: u32,
    pub background: Color,
    pub ops: Vec<DrawOp>,
}

impl View for Frame {
    type V = FrameView;

    open spec fn view(&self) -> FrameView {
        FrameView {
            width: self.width as int,
            height: self.height as int,
            background: self.background,
            ops: ops_view(self.ops@),
        }
    }
}

/// The colour of an image on which nothing was drawn.
pub open spec fn blank() -> Color {
    Color { red: 0, green: 0, blue: 0, alpha: 0 }
}

/// The label of a year.
pub open spec fn year_label_cmd(theme: Theme, year_index: int, year: int) -> DrawCmd {
    DrawCmd::Text {
        x: YEAR_LABEL_X as int,
        y: spec_year_label_y(year_index),
        text: signed_decimal_digits(year),
        size: YEAR_TEXT_SIZE as int,
        color: theme.text_primary,
    }
}

/// The label of a month.
pub open spec fn month_label_cmd(theme: Theme, year_index: int, month: int) -> DrawCmd {
    DrawCmd::Text {
        x: spec_month_x(month),
        y: spec_year_offset(year_index),
        text: spec_month_label(month),
        size: MONTH_TEXT_SIZE as int,
        color: theme.text_secondary,
    }
}

/// The block of a day, in the colour of the day's commit count.
pub open spec fn day_block(
    index: Map<Date, nat>,
    theme: Theme,
    year_index: int,
    year: int,
    month: int,
    day: int,
) -> DrawCmd {
    DrawCmd::Fill {
        x: spec_day_x(month, day),
        y: spec_day_y(year_index, day),
        width: BLOCK_SIZE as int,
        height: BLOCK_SIZE as int,
        color: theme.spec_commit_color(count_at(index, day_of(year, month, day))),
    }
}

/// The blocks of the first `days` days of a month.
pub open spec fn month_blocks(
    index: Map<Date, nat>,
    theme: Theme,
    year_index: int,
    year: int,
    month: int,
    days: int,
) -> Seq<DrawCmd> {
    Seq::new(days as nat, |i: int| day_block(index, theme, year_index, year, month, i + 1))
}

/// A month: its label, then a block for each day that the month has.
pub open spec fn month_ops(
    index: Map<Date, nat>,
    theme: Theme,
    year_index: int,
    year: int,
    month: int,
) -> Seq<DrawCmd> {
    seq![month_label_cmd(theme, year_index, month)] + month_blocks(
        index,
        theme,
        year_index,
        year,
        month,
        spec_days_in_month(year, month),
    )
}

/// The first `months` months of a year.
pub open spec fn months_ops(
    index: Map<Date, nat>,
    theme: Theme,
    year_index: int,
    year: int,
    months: int,
) -> Seq<DrawCmd>
    decreases months,
{
    if months <= 0 {
        Seq::<DrawCmd>::empty()
    } else {
        months_ops(index, theme, year_index, year, months - 1) + month_ops(
            index,
            theme,
            year_index,
            year,
            months,
        )
    }
}

/// The separator: a line one pixel high across the image, above every
/// year but the first.
pub open spec fn separator_ops(theme: Theme, year_index: int) -> Seq<DrawCmd> {
    if year_index > 0 {
        seq![
            DrawCmd::Fill {
                x: 0,
                y: spec_separator_y(year_index),
                width: IMAGE_WIDTH as int,
                height: 1,
                color: theme.separator,
            },
        ]
    } else {
        Seq::<DrawCmd>::empty()
    }
}

/// A summary line.
pub open spec fn summary_line_cmd(theme: Theme, year_index: int, figures: YearFigures, line: int)
    -> DrawCmd {
    DrawCmd::Text {
        x: SUMMARY_X as int,
        y: spec_summary_line_y(year_index, line),
        text: spec_summary_text(figures, line),
        size: SMALL_TEXT_SIZE as int,
        color: theme.text_primary,
    }
}

/// The first `lines` summary lines.
pub open spec fn summary_ops(theme: Theme, year_index: int, figures: YearFigures, lines: int)
    -> Seq<DrawCmd> {
    Seq::new(lines as nat, |line: int| summary_line_cmd(theme, year_index, figures, line))
}

/// A legend row: the square in the colour of the row's bucket and the text
/// beside it; nothing where no day is in the bucket or the row has no room.
pub open spec fn legend_row_ops(
    theme: Theme,
    years: int,
    year_index: int,
    figures: YearFigures,
    row: int,
) -> Seq<DrawCmd> {
    if figures.bucket_days[row] > 0 && spec_legend_row_fits(years, year_index, row) {
        seq![
            DrawCmd::Fill {
                x: LEGEND_X as int,
                y: spec_legend_row_y(year_index, row),
                width: BLOCK_SIZE as int,
                height: BLOCK_SIZE as int,
                color: theme.commit_colors[row + 1],
            },
            DrawCmd::Text {
                x: LEGEND_TEXT_X as int,
                y: spec_legend_row_y(year_index, row),
                text: spec_legend_text(figures, row),
                size: SMALL_TEXT_SIZE as int,
                color: theme.text_secondary,
            },
        ]
    } else {
        Seq::<DrawCmd>::empty()
    }
}

/// The first `rows` legend rows.
pub open spec fn legend_ops(
    theme: Theme,
    years: int,
    year_index: int,
    figures: YearFigures,
    rows: int,
) -> Seq<DrawCmd>
    decreases rows,
{
    if rows <= 0 {
        Seq::<DrawCmd>::empty()
    } else {
        legend_ops(theme, years, year_index, figures, rows - 1) + legend_row_ops(
            theme,
            years,
            year_index,
            figures,
            rows - 1,
        )
    }
}

/// A year: its label, its twelve months, the separator above it, its
/// summary lines and its legend. `figures` holds the sums of the year.
pub open spec fn year_ops(
    index: Map<Date, nat>,
    theme: Theme,
    years: int,
    year_index: int,
    figures: YearFigures,
) -> Seq<DrawCmd> {
    seq![year_label_cmd(theme, year_index, figures.year)] + months_ops(
        index,
        theme,
        year_index,
        figures.year,
        12,
    ) + separator_ops(theme, year_index) + summary_ops(
        theme,
        year_index,
        figures,
        SUMMARY_LINES as int,
    ) + legend_ops(theme, years, year_index, figures, LEGEND_ROWS as int)
}

/// The first `shown` of the given years, each at its place from the top.
pub open spec fn years_ops(
    index: Map<Date, nat>,
    stats: Map<Date, DayTotals>,
    theme: Theme,
    years: Seq<i32>,
    shown: int,
) -> Seq<DrawCmd>
    decreases shown,
{
    if shown <= 0 {
        Seq::<DrawCmd>::empty()
    } else {
        years_ops(index, stats, theme, years, shown - 1) + year_ops(
            index,
            theme,
            years.len() as int,
            shown - 1,
            figures_of(index, stats, years[shown - 1] as int),
        )
    }
}

/// The image of the given years. Without years it is a blank image of one
/// pixel; else it is as wide as the layout and as high as its years, starts
/// in the background colour and shows the years from the top.
pub open spec fn frame_of(
    index: Map<Date, nat>,
    stats: Map<Date, DayTotals>,
    theme: Theme,
    years: Seq<i32>,
) -> FrameView {
    if years.len() == 0 {
        FrameView { width: 1, height: 1, background: blank(), ops: Seq::<DrawCmd>::empty() }
    } else {
        FrameView {
            width: IMAGE_WIDTH as int,
            height: spec_image_height(years.len() as int),
            background: theme.background,
            ops: years_ops(index, stats, theme, years, years.len() as int),
        }
    }
}

fn emit(ops: &mut Vec<DrawOp>, op: DrawOp)
    ensures
        ops_view(final(ops)@) == ops_view(old(ops)@).push(op@),
{
    ops.push(op);
    assert(ops_view(ops@) =~= ops_view(old(ops)@).push(op@));
}

/// Appends the operations of a month.
pub fn push_month(
    ops: &mut Vec<DrawOp>,
    history: &History,
    theme: &Theme,
    year_index: u32,
    year: i32,
    month: u32,
)
    requires
        history.wf(),
        spec_image_height(year_index + 1) <= u32::MAX,
        1 <= month <= 12,
    ensures
        ops_view(final(ops)@) == ops_view(old(ops)@) + month_ops(
            history.index@,
            *theme,
            year_index as int,
            year as int,
            month as int,
        ),
{
    let ghost start = ops_view(ops@);
    let ghost label = month_label_cmd(*theme, year_index as int, month as int);
    match month_label(month as u8) {
        Some(text) => {
            emit(
                ops,
                DrawOp::Text {
                    x: month_x(month),
                    y: year_offset(year_index),
                    text,
                    size: MONTH_TEXT_SIZE,
                    color: theme.text_secondary,
                },
            );
        },
        None => {},
    }
    let days = days_in_month(year, month);
    let mut day: u32 = 1;
    assert(ops_view(ops@) =~= start + seq![label] + month_blocks(
        history.index@,
        *theme,
        year_index as int,
        year as int,
        month as int,
        0,
    ));
    while day <= days
        invariant
            history.wf(),
            spec_image_height(year_index + 1) <= u32::MAX,
            1 <= month <= 12,
            1 <= day <= days + 1,
            days == spec_days_in_month(year as int, month as int),
            ops_view(ops@) == start + seq![label] + month_blocks(
                history.index@,
                *theme,
                year_index as int,
                year as int,
                month as int,
                day - 1,
            ),
        decreases days + 1 - day,
    {
        let date = Date { year, month: month as u8, day: day as u8 };
        let color = theme.commit_color(history.index.count(date));
        let ghost before = ops_view(ops@);
        emit(
            ops,
            DrawOp::Fill {
                x: day_x(month, day),
                y: day_y(year_index, day),
                width: BLOCK_SIZE,
                height: BLOCK_SIZE,
                color,
            },
        );
        proof {
            let blocks = |n: int|
                month_blocks(
                    history.index@,
                    *theme,
                    year_index as int,
                    year as int,
                    month as int,
                    n,
                );
            assert(blocks(day as int) =~= blocks(day - 1).push(
                day_block(
                    history.index@,
                    *theme,
                    year_index as int,
                    year as int,
                    month as int,
                    day as int,
                ),
            ));
            assert(ops_view(ops@) =~= start + seq![label] + blocks(day as int));
        }
        day += 1;
    }
    proof {
        assert(ops_view(ops@) =~= start + month_ops(
            history.index@,
            *theme,
            year_index as int,
            year as int,
            month as int,
        ));
    }
}

/// Appends the summary lines of a year.
pub fn push_summary(ops: &mut Vec<DrawOp>, theme: &Theme, year_index: u32, summary: &YearSummary)
    requires
        spec_image_height(year_index + 1) <= u32::MAX,
    ensures
        ops_view(final(ops)@) == ops_view(old(ops)@) + summary_ops(
            *theme,
            year_index as int,
            summary@,
            SUMMARY_LINES as int,
        ),
{
    let ghost start = ops_view(ops@);
    let mut line: u32 = 0;
    assert(ops_view(ops@) =~= start + summary_ops(*theme, year_index as int, summary@, 0));
    while line < SUMMARY_LINES
        invariant
            spec_image_height(year_index + 1) <= u32::MAX,
            line <= SUMMARY_LINES,
            ops_view(ops@) == start + summary_ops(
                *theme,
                year_index as int,
                summary@,
                line as int,
            ),
        decreases SUMMARY_LINES - line,
    {
        let number = if line == 0 {
            summary.commits
        } else if line == 1 {
            summary.files
        } else if line == 2 {
            summary.insertions
        } else {
            summary.deletions
        };
        emit(
            ops,
            DrawOp::Text {
                x: SUMMARY_X,
                y: summary_line_y(year_index, line),
                text: numbered(number, summary_suffix(line)),
                size: SMALL_TEXT_SIZE,
                color: theme.text_primary,
            },
        );
        proof {
            let lines = |n: int| summary_ops(*theme, year_index as int, summary@, n);
            assert(lines(line + 1) =~= lines(line as int).push(
                summary_line_cmd(*theme, year_index as int, summary@, line as int),
            ));
            assert(ops_view(ops@) =~= start + lines(line + 1));
        }
        line += 1;
    }
}

/// Appends the legend of a year in an image of `years` years.
pub fn push_legend(
    ops: &mut Vec<DrawOp>,
    theme: &Theme,
    years: u32,
    year_index: u32,
    summary: &YearSummary,
)
    requires
        year_index < years,
        spec_image_height(years as int) <= u32::MAX,
    ensures
        ops_view(final(ops)@) == ops_view(old(ops)@) + legend_ops(
            *theme,
            years as int,
            year_index as int,
            summary@,
            LEGEND_ROWS as int,
        ),
{
    let ghost start = ops_view(ops@);
    let mut row: u32 = 0;
    assert(ops_view(ops@) =~= start + legend_ops(
        *theme,
        years as int,
        year_index as int,
        summary@,
        0,
    ));
    while row < LEGEND_ROWS
        invariant
            year_index < years,
            spec_image_height(years as int) <= u32::MAX,
            row <= LEGEND_ROWS,
            ops_view(ops@) == start + legend_ops(
                *theme,
                years as int,
                year_index as int,
                summary@,
                row as int,
            ),
        decreases LEGEND_ROWS - row,
    {
        let days = summary.bucket_days[row as usize];
        let ghost before = ops_view(ops@);
        if days > 0 && legend_row_fits(years, year_index, row) {
            let y = legend_row_y(year_index, row);
            emit(
                ops,
                DrawOp::Fill {
                    x: LEGEND_X,
                    y,
                    width: BLOCK_SIZE,
                    height: BLOCK_SIZE,
                    color: theme.commit_colors[row as usize + 1],
                },
            );
            emit(
                ops,
                DrawOp::Text {
                    x: LEGEND_TEXT_X,
                    y,
                    text: legend_text(days, row),
                    size: SMALL_TEXT_SIZE,
                    color: theme.text_secondary,
                },
            );
        }
        proof {
            assert(ops_view(ops@) =~= before + legend_row_ops(
                *theme,
                years as int,
                year_index as int,
                summary@,
                row as int,
            ));
            assert(ops_view(ops@) =~= start + legend_ops(
                *theme,
                years as int,
                year_index as int,
                summary@,
                row + 1,
            ));
        }
        row += 1;
    }
}

/// Appends the operations of a year in an image of `years` years.
pub fn push_year(
    ops: &mut Vec<DrawOp>,
    history: &History,
    theme: &Theme,
    years: u32,
    year_index: u32,
    year: i32,
)
    requires
        history.wf(),
        year_index < years,
        spec_image_height(years as int) <= u32::MAX,
    ensures
        ops_view(final(ops)@) == ops_view(old(ops)@) + year_ops(
            history.index@,
            *theme,
            years as int,
            year_index as int,
            figures_of(history.index@, history.stats@, year as int),
        ),
{
    let ghost start = ops_view(ops@);
    let ghost index = history.index@;
    let ghost figures = figures_of(history.index@, history.stats@, year as int);
    emit(
        ops,
        DrawOp::Text {
            x: YEAR_LABEL_X,
            y: year_label_y(year_index),
            text: year_label(year),
            size: YEAR_TEXT_SIZE,
            color: theme.text_primary,
        },
    );
    let ghost labelled = ops_view(ops@);
    let mut month: u32 = 1;
    assert(ops_view(ops@) =~= labelled + months_ops(
        index,
        *theme,
        year_index as int,
        year as int,
        0,
    ));
    while month <= 12
        invariant
            history.wf(),
            index == history.index@,
            year_index < years,
            spec_image_height(years as int) <= u32::MAX,
            1 <= month <= 13,
            ops_view(ops@) == labelled + months_ops(
                index,
                *theme,
                year_index as int,
                year as int,
                month - 1,
            ),
        decreases 13 - month,
    {
        push_month(ops, history, theme, year_index, year, month);
        proof {
            assert(ops_view(ops@) =~= labelled + months_ops(
                index,
                *theme,
                year_index as int,
                year as int,
                month as int,
            ));
        }
        month += 1;
    }
    let ghost with_months = ops_view(ops@);
    if year_index > 0 {
        emit(
            ops,
            DrawOp::Fill {
                x: 0,
                y: separator_y(year_index),
                width: IMAGE_WIDTH,
                height: 1,
                color: theme.separator,
            },
        );
    }
    assert(ops_view(ops@) =~= with_months + separator_ops(*theme, year_index as int));
    let summary = history.summarize(year);
    push_summary(ops, theme, year_index, &summary);
    push_legend(ops, theme, years, year_index, &summary);
    proof {
        assert(ops_view(ops@) =~= start + year_ops(
            index,
            *theme,
            years as int,
            year_index as int,
            figures,
        ));
    }
}

/// The image of the given years over a history.
pub fn render(history: &History, theme: &Theme, years: &Vec<i32>) -> (frame: Frame)
    requires
        history.wf(),
        spec_image_height(years.len() as int) <= u32::MAX,
    ensures
        frame@ == frame_of(history.index@, history.stats@, *theme, years@),
{
    if years.len() == 0 {
        let frame = Frame {
            width: 1,
            height: 1,
            background: Color { red: 0, green: 0, blue: 0, alpha: 0 },
            ops: Vec::new(),
        };
        assert(frame@.ops =~= Seq::<DrawCmd>::empty());
        return frame;
    }
    let count = years.len() as u32;
    let mut ops: Vec<DrawOp> = Vec::new();
    let mut i: u32 = 0;
    assert(ops_view(ops@) =~= years_ops(history.index@, history.stats@, *theme, years@, 0));
    while i < count
        invariant
            history.wf(),
            count == years.len(),
            spec_image_height(count as int) <= u32::MAX,
            i <= count,
            ops_view(ops@) == years_ops(
                history.index@,
                history.stats@,
                *theme,
                years@,
                i as int,
            ),
        decreases count - i,
    {
        push_year(&mut ops, history, theme, count, i, years[i as usize]);
        i += 1;
    }
    Frame { width: IMAGE_WIDTH, height: image_height(count), background: theme.background, ops }
}

} // verus!
